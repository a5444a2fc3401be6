use vstd::prelude::*;

use std::collections::VecDeque;

use crate::block::{data_at, Data};
use crate::command::{Command, CommandWrapper};
use crate::game::center_shift;
use crate::mino::Mino;
use crate::mino_controller::MinoController;
use crate::rng::{is_centered_piece, is_some_piece, stack_of, MinoRng};
use crate::well::{cell, empty_well, height, well_ok, well_shape, width, Well};

verus! {

/// What a unit is doing; the countdowns are in nanoseconds.
#[derive(Clone, Copy, Debug)]
pub enum State {
    Play,
    LineClear { countdown: u64 },
    GameOfLife { countdown: u64 },
    Lose,
    Win,
}

/// The game one player plays: the well, the falling piece, the stored piece
/// and the score.
pub struct Base {
    pub well: Well,
    pub animate_line: Vec<bool>,
    pub state: State,
    pub lines_cleared: u32,
    pub mode: Mode,
    pub falling_mino: Option<Mino>,
    pub can_store_mino: bool,
    pub stored_mino: Option<Mino>,
    pub just_changed_mino: bool,
    pub just_cleared_lines: bool,
    pub just_lost: bool,
    pub just_won: bool,
    pub just_changed_level: bool,
}

/// Width and height of the well of a new game.
pub const WELL_WIDTH: usize = 10;

pub const WELL_HEIGHT: usize = 20;

/// A new game: an empty 10 by 20 well, no piece, nothing cleared, no flag up.
pub open spec fn fresh_base(b: Base) -> bool {
    &&& well_shape(b.well) == (10nat, 20nat)
    &&& forall|x: int, y: int| 0 <= x < 10 && 0 <= y < 20 ==> #[trigger] cell(b.well, x, y) is None
    &&& b.animate_line@ == seq![false; 20]
    &&& b.state is Play
    &&& b.lines_cleared == 0
    &&& b.falling_mino is None
    &&& b.can_store_mino
    &&& b.stored_mino is None
    &&& !b.just_changed_mino && !b.just_cleared_lines && !b.just_lost && !b.just_won && !b.just_changed_level
}

impl Base {
    /// A new game in the given mode (see `fresh_base`).
    pub fn new(mode: Mode) -> (b: Self)
        ensures
            fresh_base(b),
            b.mode == mode,
    {
        let b = Base {
            animate_line: vec![false; WELL_HEIGHT],
            state: State::Play,
            lines_cleared: 0,
            mode,
            can_store_mino: true,
            stored_mino: None,
            falling_mino: None,
            well: empty_well(WELL_WIDTH, WELL_HEIGHT),
            just_changed_mino: false,
            just_cleared_lines: false,
            just_lost: false,
            just_won: false,
            just_changed_level: false,
        };
        assert(b.animate_line@ =~= seq![false; 20]);
        b
    }

    /// Clears the flags that report what happened since the last reset.
    pub fn reset_flags(&mut self)
        ensures
            !final(self).just_changed_mino,
            !final(self).just_cleared_lines,
            !final(self).just_lost,
            !final(self).just_won,
            !final(self).just_changed_level,
            final(self).well == old(self).well,
            final(self).animate_line == old(self).animate_line,
            final(self).state == old(self).state,
            final(self).lines_cleared == old(self).lines_cleared,
            final(self).mode == old(self).mode,
            final(self).falling_mino == old(self).falling_mino,
            final(self).can_store_mino == old(self).can_store_mino,
            final(self).stored_mino == old(self).stored_mino,
    {
        self.just_changed_mino = false;
        self.just_cleared_lines = false;
        self.just_lost = false;
        self.just_won = false;
        self.just_changed_level = false;
    }

    /// Ends the game as won; the first time, `just_won` is raised.
    pub fn win(&mut self)
        ensures
            final(self).state is Win,
            final(self).just_won == (old(self).just_won || !(old(self).state is Win)),
            *final(self) == (Base { state: State::Win, just_won: final(self).just_won, ..*old(self) }),
    {
        if !matches!(self.state, State::Win) {
            self.state = State::Win;
            self.just_won = true;
        }
    }

    /// Ends the game as lost; the first time, `just_lost` is raised.
    pub fn lose(&mut self)
        ensures
            final(self).state is Lose,
            final(self).just_lost == (old(self).just_lost || !(old(self).state is Lose)),
            *final(self) == (Base { state: State::Lose, just_lost: final(self).just_lost, ..*old(self) }),
    {
        if !matches!(self.state, State::Lose) {
            self.state = State::Lose;
            self.just_lost = true;
        }
    }
}

} // verus!

verus! {

/// The game mode of a unit, with what the mode keeps track of.
#[derive(Debug)]
pub enum Mode {
    /// Levels go up as lines are cleared; reaching `level_target` wins.
    Marathon { level: u32, level_target: u32, lines_before_next_level: i32 },
    /// Clearing `lines_cleared_target` lines wins.
    Sprint { lines_cleared_target: u32 },
    /// Lines cleared are sent to `target_unit_id`; lines received wait in
    /// `lines_received` (their total is `lines_received_sum`).
    Versus { lines_received: VecDeque<usize>, lines_received_sum: usize, target_unit_id: usize },
    /// The well evolves as a cellular automaton every fourth step.
    GameOfLife { count: u32 },
}

/// A versus mode with nothing received yet, aiming at unit `target`.
pub open spec fn fresh_versus(m: Mode, target: usize) -> bool {
    m matches Mode::Versus { lines_received, lines_received_sum, target_unit_id } && lines_received@.len() == 0
        && lines_received_sum == 0 && target_unit_id == target
}

impl Mode {
    pub fn default_marathon() -> (m: Mode)
        ensures
            m == (Mode::Marathon { level: 1, level_target: 50, lines_before_next_level: 10 }),
    {
        Mode::Marathon { level_target: 50, level: 1, lines_before_next_level: get_lines_before_next_level(1) }
    }

    pub fn default_sprint() -> (m: Mode)
        ensures
            m == (Mode::Sprint { lines_cleared_target: 40 }),
    {
        Mode::Sprint { lines_cleared_target: 40 }
    }

    pub fn default_versus() -> (m: Mode)
        ensures
            fresh_versus(m, 0),
    {
        Mode::Versus { lines_received: VecDeque::new(), lines_received_sum: 0, target_unit_id: 0 }
    }

    pub fn default_game_of_life() -> (m: Mode)
        ensures
            m == (Mode::GameOfLife { count: 0 }),
    {
        Mode::GameOfLife { count: 0 }
    }
}

/// Lines to clear at `level` before the next level: ten per level.
pub fn get_lines_before_next_level(level: u32) -> (r: i32)
    requires
        10 * level <= i32::MAX,
    ensures
        r == 10 * level,
{
    10 * (level as i32)
}

/// Time between two gravity steps at `level`, in nanoseconds: 0.4 s divided
/// by `1 + 0.15 (level - 1)`, that is `40 s / (85 + 15 level)`, rounded to
/// the nearest nanosecond (a half up).
pub open spec fn level_fall_duration(level: int) -> int {
    (80_000_000_000int + (85 + 15 * level)) / (2 * (85 + 15 * level))
}

/// The time between two gravity steps at `level` (see `level_fall_duration`).
pub fn get_level_fall_duration(level: u32) -> (r: u64)
    requires
        level >= 1,
    ensures
        r == level_fall_duration(level as int),
{
    let d: u64 = 85 + 15 * (level as u64);
    (80_000_000_000u64 + d) / (2 * d)
}

/// The level and the lines still to clear after `level_up` has run: while
/// no lines remain, the level goes up and the next level's lines are added.
pub open spec fn level_up(level: int, lines: int) -> (int, int)
    decreases (if lines <= 0 { 1 - lines } else { 0 }) when level >= 0
{
    if lines > 0 || level < 0 {
        (level, lines)
    } else {
        level_up(level + 1, lines + 10 * (level + 1))
    }
}

/// Levelling up from `(level, lines)` stays within the machine integers.
pub open spec fn level_up_fits(level: int, lines: int) -> bool
    decreases (if lines <= 0 { 1 - lines } else { 0 }) when level >= 0
{
    lines > 0 || (level >= 0 && level + 1 <= u32::MAX && 10 * (level + 1) <= i32::MAX && lines + 10 * (level
        + 1) <= i32::MAX && level_up_fits(level + 1, lines + 10 * (level + 1)))
}

/// Counts `clearable_lines` against the lines still needed, and raises the
/// level (adding the new level's lines) as many times as the count reaches
/// zero or below. Says whether the level changed.
pub fn update_level(level: &mut u32, lines_before_next_level: &mut i32, clearable_lines: u32) -> (changed: bool)
    requires
        fits_i32_sub(*old(lines_before_next_level) as int, clearable_lines as i32 as int),
        level_up_fits(*old(level) as int, *old(lines_before_next_level) - (clearable_lines as i32)),
    ensures
        (*final(level) as int, *final(lines_before_next_level) as int) == level_up(
            *old(level) as int,
            *old(lines_before_next_level) - (clearable_lines as i32),
        ),
        changed == (*old(lines_before_next_level) - (clearable_lines as i32) <= 0),
        *final(lines_before_next_level) > 0,
{
    *lines_before_next_level = *lines_before_next_level - (clearable_lines as i32);
    let mut level_changed = false;
    let ghost start = *lines_before_next_level;
    while *lines_before_next_level <= 0
        invariant
            level_up_fits(*level as int, *lines_before_next_level as int),
            level_up(*level as int, *lines_before_next_level as int) == level_up(
                *old(level) as int,
                start as int,
            ),
            level_changed ==> start <= 0,
            !level_changed ==> *lines_before_next_level == start,
        decreases (if *lines_before_next_level <= 0 { 1 - *lines_before_next_level as int } else { 0 }),
    {
        let ghost before = *lines_before_next_level;
        *level = *level + 1;
        let more = get_lines_before_next_level(*level);
        assert(more >= 10);
        *lines_before_next_level = *lines_before_next_level + more;
        assert(*lines_before_next_level >= before + 10);
        level_changed = true;
    }
    level_changed
}

/// `a - b` lies within `i32`.
pub open spec fn fits_i32_sub(a: int, b: int) -> bool {
    i32::MIN <= a - b <= i32::MAX
}

} // verus!

verus! {

/// A command for a unit.
#[derive(Clone, Copy, Debug)]
pub enum UnitCommandKind {
    MoveLeft,
    MoveRight,
    RotateLeft,
    RotateRight,
    /// Let the piece fall this many rows.
    ApplyGravity(i32),
    Store,
    PreClearLines,
    ClearLines,
    PreGameOfLife,
    GameOfLife,
    NextMino(Mino),
    /// Lines cleared by another unit, to be added to this one later.
    SendLines(usize),
    /// Add this many garbage lines, with the gap in the given column.
    AddLines(usize, usize),
}

/// A unit command addressed to the unit with the given number.
pub type UnitCommandInner = (usize, UnitCommandKind);

pub type UnitCommand = CommandWrapper<UnitCommandInner>;

impl Command for (usize, UnitCommandKind) {

}

/// The upcoming pieces of a local player and the generator that refills them.
pub struct LocalMinoRng {
    pub queue: VecDeque<Mino>,
    pub rng: MinoRng,
}

impl LocalMinoRng {
    /// Upcoming pieces are fresh pieces and the generator is well formed.
    pub open spec fn wf(&self) -> bool {
        &&& self.rng.wf()
        &&& self.queue@.len() > 0
        &&& forall|i: int| 0 <= i < self.queue@.len() ==> is_some_piece(#[trigger] self.queue@[i])
    }

    /// Takes the first upcoming piece and appends a newly generated one.
    pub fn next_mino(&mut self) -> (m: Mino)
        requires
            old(self).wf(),
        ensures
            final(self).wf(),
            m == old(self).queue@[0],
            final(self).queue@.len() == old(self).queue@.len(),
            final(self).queue@.drop_last() == old(self).queue@.drop_first(),
    {
        let mino = self.queue.pop_front();
        let next = self.rng.generate();
        self.queue.push_back(next);
        match mino {
            Some(m) => {
                assert(self.queue@.drop_last() =~= old(self).queue@.drop_first());
                m
            },
            None => {
                assert(false);
                Mino::i()
            },
        }
    }

    /// The next piece, moved to the middle of the well's width.
    pub fn next_mino_centered(&mut self, well: &Well) -> (m: Mino)
        requires
            old(self).wf(),
            well_ok(*well),
        ensures
            final(self).wf(),
            m == old(self).queue@[0].moved(center_shift(old(self).queue@[0], *well), 0),
            is_centered_piece(m, *well),
            final(self).queue@.len() == old(self).queue@.len(),
            final(self).queue@.drop_last() == old(self).queue@.drop_first(),
    {
        let mut mino = self.next_mino();
        proof {
            crate::rng::lemma_piece_centers(mino, *well);
        }
        crate::game::center_mino(&mut mino, well);
        mino
    }
}

/// Who drives a unit: a local player, with the controller state and upcoming
/// pieces, or a player on the network.
pub enum Kind {
    Local { rng: LocalMinoRng, mino_controller: MinoController },
    Network,
}

/// Number of upcoming pieces a local player sees.
pub const QUEUE_LEN: usize = 5;

impl Kind {
    /// A local player with a fair generator, made from `seed`, and five
    /// straight pieces queued.
    pub fn local(mino_controller: MinoController, seed: u64) -> (k: Kind)
        ensures
            k matches Kind::Local { rng, mino_controller: mc } && mc == mino_controller && rng.wf()
                && rng.rng is Fair && stack_of(rng.rng).len() == 0
                && rng.queue@.len() == 5 && forall|i: int| 0 <= i < 5 ==> (#[trigger] rng.queue@[i]).is_piece(6),
    {
        let rng = MinoRng::fair(seed);
        let mut queue: VecDeque<Mino> = VecDeque::with_capacity(QUEUE_LEN);
        let mut i: usize = 0;
        while i < QUEUE_LEN
            invariant
                0 <= i <= QUEUE_LEN,
                queue@.len() == i,
                forall|j: int| 0 <= j < i ==> (#[trigger] queue@[j]).is_piece(6),
            decreases QUEUE_LEN - i,
        {
            queue.push_back(Mino::i());
            i = i + 1;
        }
        let r = LocalMinoRng { queue, rng };
        assert forall|j: int| 0 <= j < r.queue@.len() implies is_some_piece(#[trigger] r.queue@[j]) by {
            assert(r.queue@[j].is_piece(6));
        }
        Kind::Local { mino_controller, rng: r }
    }
}

/// One player's game and who drives it.
pub struct Unit {
    pub base: Base,
    pub kind: Kind,
}

impl Unit {
    /// A new unit for a local player, whose generator is made from `seed`.
    pub fn local(mode: Mode, mino_controller: MinoController, seed: u64) -> (u: Unit)
        ensures
            fresh_base(u.base),
            u.base.mode == mode,
            u.kind matches Kind::Local { rng, mino_controller: mc } && mc == mino_controller && rng.wf()
                && rng.rng is Fair && stack_of(rng.rng).len() == 0
                && rng.queue@.len() == 5 && forall|i: int| 0 <= i < 5 ==> (#[trigger] rng.queue@[i]).is_piece(6),
    {
        Unit { base: Base::new(mode), kind: Kind::local(mino_controller, seed) }
    }

    /// A new unit for a player on the network.
    pub fn network(mode: Mode) -> (u: Unit)
        ensures
            fresh_base(u.base),
            u.base.mode == mode,
            u.kind is Network,
    {
        Unit { base: Base::new(mode), kind: Kind::Network }
    }
}

} // verus!
