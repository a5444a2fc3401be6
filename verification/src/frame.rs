use vstd::prelude::*;

use std::collections::VecDeque;

use crate::command::CommandWrapper;
use crate::mino_controller::{after_frame, append_ok, frame_cmds, wrap_all, MinoController};
use crate::ready::command_check;
use crate::unit::{UnitCommand, UnitCommandInner, UnitCommandKind};
use crate::unit_commands::{command_ready, executed, wrap_with};
use crate::session::{Player, State};
use crate::ui::GameModeSelection;
use crate::unit::{get_level_fall_duration, level_fall_duration, Base, Kind, Mode, Unit};

verus! {

/// How long the line clear animation lasts, in nanoseconds.
pub const LINE_CLEAR_DURATION: u64 = 200_000_000;

/// How long one step of the game of life is shown, in nanoseconds.
pub const GAME_OF_LIFE_DURATION: u64 = 250_000_000;

/// A unit's state `dpf` nanoseconds later: an animation counts the time and
/// gives way to play once it has lasted long enough.
pub open spec fn advanced(s: crate::unit::State, dpf: int) -> crate::unit::State {
    match s {
        crate::unit::State::LineClear { countdown } => if countdown + dpf >= LINE_CLEAR_DURATION {
            crate::unit::State::Play
        } else {
            crate::unit::State::LineClear { countdown: (countdown + dpf) as u64 }
        },
        crate::unit::State::GameOfLife { countdown } => if countdown + dpf >= GAME_OF_LIFE_DURATION {
            crate::unit::State::Play
        } else {
            crate::unit::State::GameOfLife { countdown: (countdown + dpf) as u64 }
        },
        _ => s,
    }
}

/// Lets `dpf` nanoseconds of an animation pass (see `advanced`).
pub fn advance_animation(state: &mut crate::unit::State, dpf: u64)
    requires
        *old(state) matches crate::unit::State::LineClear { countdown } ==> countdown + dpf <= u64::MAX,
        *old(state) matches crate::unit::State::GameOfLife { countdown } ==> countdown + dpf <= u64::MAX,
    ensures
        *final(state) == advanced(*old(state), dpf as int),
{
    match *state {
        crate::unit::State::LineClear { countdown } => {
            let c = countdown + dpf;
            *state = if c >= LINE_CLEAR_DURATION {
                crate::unit::State::Play
            } else {
                crate::unit::State::LineClear { countdown: c }
            };
        },
        crate::unit::State::GameOfLife { countdown } => {
            let c = countdown + dpf;
            *state = if c >= GAME_OF_LIFE_DURATION {
                crate::unit::State::Play
            } else {
                crate::unit::State::GameOfLife { countdown: c }
            };
        },
        _ => {},
    }
}

/// Every unit's animation counts `dpf` more nanoseconds (see `advanced`); a
/// countdown that would pass `u64::MAX` is left as it is.
pub fn advance_animations(units: &mut Vec<Unit>, dpf: u64)
    ensures
        final(units)@.len() == old(units)@.len(),
        forall|i: int|
            0 <= i < old(units)@.len() ==> {
                let u = #[trigger] old(units)@[i];
                let fits = match u.base.state {
                    crate::unit::State::LineClear { countdown } => countdown + dpf <= u64::MAX,
                    crate::unit::State::GameOfLife { countdown } => countdown + dpf <= u64::MAX,
                    _ => true,
                };
                final(units)@[i] == (if fits {
                    Unit { base: Base { state: advanced(u.base.state, dpf as int), ..u.base }, ..u }
                } else {
                    u
                })
            },
{
    let ghost u0 = units@;
    let mut i: usize = 0;
    while i < units.len()
        invariant
            0 <= i <= units@.len(),
            units@.len() == u0.len(),
            forall|j: int|
                0 <= j < i ==> {
                    let u = #[trigger] u0[j];
                    let fits = match u.base.state {
                        crate::unit::State::LineClear { countdown } => countdown + dpf <= u64::MAX,
                        crate::unit::State::GameOfLife { countdown } => countdown + dpf <= u64::MAX,
                        _ => true,
                    };
                    units@[j] == (if fits {
                        Unit { base: Base { state: advanced(u.base.state, dpf as int), ..u.base }, ..u }
                    } else {
                        u
                    })
                },
            forall|j: int| i <= j < u0.len() ==> #[trigger] units@[j] == u0[j],
        decreases units@.len() - i,
    {
        let fits = match units[i].base.state {
            crate::unit::State::LineClear { countdown } => countdown <= u64::MAX - dpf,
            crate::unit::State::GameOfLife { countdown } => countdown <= u64::MAX - dpf,
            _ => true,
        };
        let ghost before = units@;
        if fits {
            advance_animation(&mut units[i].base.state, dpf);
        }
        assert forall|j: int| i < j < u0.len() implies #[trigger] units@[j] == u0[j] by {
            assert(units@[j] == before[j]);
        }
        i = i + 1;
    }
}

/// The first `j < k`, if any, for which `p(j)` holds.
pub open spec fn first_index(k: int, p: spec_fn(int) -> bool) -> Option<int>
    decreases k,
{
    if k <= 0 {
        None
    } else {
        match first_index(k - 1, p) {
            Some(j) => Some(j),
            None => if p(k - 1) {
                Some(k - 1)
            } else {
                None
            },
        }
    }
}

/// How many `j < k` satisfy `p(j)`.
pub open spec fn count_index(k: int, p: spec_fn(int) -> bool) -> int
    decreases k,
{
    if k <= 0 {
        0
    } else {
        count_index(k - 1, p) + if p(k - 1) {
            1int
        } else {
            0
        }
    }
}

/// A count of `k` indices is at most `k`.
pub proof fn lemma_count_index(k: int, p: spec_fn(int) -> bool)
    requires
        k >= 0,
    ensures
        0 <= count_index(k, p) <= k,
    decreases k,
{
    if k > 0 {
        lemma_count_index(k - 1, p);
    }
}

/// `winner` after it is set, if still unset, to the name of the player at
/// the first index satisfying `p` below `k`.
pub open spec fn winner_after(winner: Option<String>, players: Seq<Player>, k: int, p: spec_fn(int) -> bool) -> Option<String> {
    match winner {
        Some(w) => Some(w),
        None => match first_index(k, p) {
            Some(j) => Some(players[j].name),
            None => None,
        },
    }
}

/// The game state after the end-of-game check: in versus, once all players
/// but one have lost, the game is over and the first player still playing
/// has won; in the other modes the game is over once every player has won.
pub open spec fn over_checked(s: State, sel: GameModeSelection, players: Seq<Player>, units: Seq<Unit>) -> State {
    match s {
        State::Play { players_won, players_done, players_lost, over, winner, pause } => if units.len() == 0 {
            s
        } else if sel == GameModeSelection::Versus {
            if players_lost == players.len() - 1 {
                State::Play {
                    players_won,
                    players_done,
                    players_lost,
                    over: true,
                    winner: winner_after(
                        winner,
                        players,
                        if players.len() <= units.len() { players.len() as int } else { units.len() as int },
                        |j: int| units[j].base.state is Play,
                    ),
                    pause,
                }
            } else {
                s
            }
        } else {
            State::Play {
                players_won,
                players_done,
                players_lost,
                over: over || players_won == players.len(),
                winner,
                pause,
            }
        },
        _ => s,
    }
}

/// Checks whether the game is over (see `over_checked`).
pub fn update_over(state: &mut State, sel: GameModeSelection, players: &Vec<Player>, units: &Vec<Unit>)
    requires
        players@.len() <= u32::MAX,
        units@.len() > 0 && sel == GameModeSelection::Versus ==> players@.len() >= 1,
    ensures
        *final(state) == over_checked(*old(state), sel, players@, units@),
{
    if units.len() == 0 {
        return ;
    }
    let mut taken = State::Title;
    std::mem::swap(&mut taken, state);
    match taken {
        State::Play { players_won, players_done, players_lost, over, winner, pause } => {
            let n = players.len() as u32;
            if sel == GameModeSelection::Versus {
                if players_lost == n - 1 {
                    let m = if players.len() <= units.len() { players.len() } else { units.len() };
                    let ghost p = |j: int| units@[j].base.state is Play;
                    let mut winner = winner;
                    let ghost w0 = winner;
                    let mut i: usize = 0;
                    while i < m
                        invariant
                            0 <= i <= m,
                            m <= players@.len(),
                            m <= units@.len(),
                            p == (|j: int| units@[j].base.state is Play),
                            winner == winner_after(w0, players@, i as int, p),
                        decreases m - i,
                    {
                        if winner.is_none() && matches!(units[i].base.state, crate::unit::State::Play) {
                            winner = Some(players[i].name.clone());
                        }
                        i = i + 1;
                    }
                    *state = State::Play { players_won, players_done, players_lost, over: true, winner, pause };
                } else {
                    *state = State::Play { players_won, players_done, players_lost, over, winner, pause };
                }
            } else {
                let over = over || players_won == n;
                *state = State::Play { players_won, players_done, players_lost, over, winner, pause };
            }
        },
        other => {
            *state = other;
        },
    }
}

/// A unit after the end of a frame: the controller of a local unit starts
/// a new fall when a new piece came and takes the fall speed of a new
/// marathon level; every flag is lowered.
pub open spec fn settled(u0: Unit, u1: Unit) -> bool {
    let b0 = u0.base;
    &&& u1.base == (Base {
        just_changed_mino: false,
        just_cleared_lines: false,
        just_lost: false,
        just_won: false,
        just_changed_level: false,
        ..b0
    })
    &&& match u0.kind {
        Kind::Local { rng, mino_controller: c } => u1.kind matches Kind::Local { rng: r1, mino_controller: c1 } && r1
            == rng && c1 == (MinoController {
            fall_countdown: if b0.just_changed_mino {
                0
            } else {
                c.fall_countdown
            },
            fall_duration: if b0.just_changed_level && b0.mode is Marathon {
                level_fall_duration(b0.mode->level as int) as u64
            } else {
                c.fall_duration
            },
            ..c
        }),
        Kind::Network => u1.kind is Network,
    }
}

/// Brings one unit to the end of the frame (see `settled`).
fn settle_unit(unit: &mut Unit)
    requires
        old(unit).base.just_changed_level ==> (old(unit).base.mode matches Mode::Marathon { level, .. } ==> level >= 1),
    ensures
        settled(*old(unit), *final(unit)),
{
    let changed_mino = unit.base.just_changed_mino;
    let fall = match unit.base.mode {
        Mode::Marathon { level, .. } => if unit.base.just_changed_level {
            Some(get_level_fall_duration(level))
        } else {
            None
        },
        _ => None,
    };
    match &mut unit.kind {
        Kind::Local { mino_controller, .. } => {
            if changed_mino {
                mino_controller.fall_countdown = 0;
            }
            match fall {
                Some(d) => {
                    mino_controller.fall_duration = d;
                },
                None => {},
            }
        },
        Kind::Network => {},
    }
    unit.base.reset_flags();
}

/// Whether a unit won this frame and counts for the winner: in marathon and
/// sprint the first unit to win names the winner.
pub open spec fn names_winner(sel: GameModeSelection, u: Unit) -> bool {
    (sel == GameModeSelection::Marathon || sel == GameModeSelection::Sprint) && u.base.just_won
}

/// The game state and the units after the end of a frame, for the first
/// `m` units (those that have a player): each unit is `settled`; the
/// players that lost and won this frame are counted; in marathon and sprint
/// the first player that won becomes the winner if there is none yet.
pub open spec fn frame_settled(
    s0: State,
    s1: State,
    sel: GameModeSelection,
    players: Seq<Player>,
    u0: Seq<Unit>,
    u1: Seq<Unit>,
    m: int,
) -> bool {
    &&& u1.len() == u0.len()
    &&& forall|i: int| 0 <= i < m ==> settled(#[trigger] u0[i], u1[i])
    &&& forall|i: int| m <= i < u0.len() ==> #[trigger] u1[i] == u0[i]
    &&& s0 matches State::Play { players_won, players_done, players_lost, over, winner, pause }
    &&& s1 == State::Play {
        players_won: (players_won + count_index(m, |i: int| u0[i].base.just_won)) as u32,
        players_done,
        players_lost: (players_lost + count_index(m, |i: int| u0[i].base.just_lost)) as u32,
        over,
        winner: winner_after(winner, players, m, |i: int| names_winner(sel, u0[i])),
        pause,
    }
}

/// Ends a frame of play: settles the units that have a player (see
/// `frame_settled`).
pub fn settle_units(units: &mut Vec<Unit>, players: &Vec<Player>, sel: GameModeSelection, state: &mut State)
    requires
        *old(state) matches State::Play { players_won, players_lost, .. } && players_won + old(units)@.len()
            <= u32::MAX && players_lost + old(units)@.len() <= u32::MAX,
        forall|i: int|
            0 <= i < old(units)@.len() ==> (#[trigger] old(units)@[i]).base.just_changed_level ==> (
            old(units)@[i].base.mode matches Mode::Marathon { level, .. } ==> level >= 1),
    ensures
        frame_settled(
            *old(state),
            *final(state),
            sel,
            players@,
            old(units)@,
            final(units)@,
            if players@.len() <= old(units)@.len() { players@.len() as int } else { old(units)@.len() as int },
        ),
{
    let mut taken = State::Title;
    std::mem::swap(&mut taken, state);
    match taken {
        State::Play { players_won, players_done, players_lost, over, winner, pause } => {
            let ghost u0 = units@;
            let ghost pw = |i: int| u0[i].base.just_won;
            let ghost pl = |i: int| u0[i].base.just_lost;
            let ghost pn = |i: int| names_winner(sel, u0[i]);
            let ghost w0 = winner;
            let m = if players.len() <= units.len() { players.len() } else { units.len() };
            let mut won = players_won;
            let mut lost = players_lost;
            let mut winner = winner;
            let mut i: usize = 0;
            while i < m
                invariant
                    0 <= i <= m,
                    m <= players@.len(),
                    m <= u0.len(),
                    units@.len() == u0.len(),
                    players_won + u0.len() <= u32::MAX,
                    players_lost + u0.len() <= u32::MAX,
                    forall|j: int|
                        0 <= j < u0.len() ==> (#[trigger] u0[j]).base.just_changed_level ==> (
                        u0[j].base.mode matches Mode::Marathon { level, .. } ==> level >= 1),
                    forall|j: int| 0 <= j < i ==> settled(#[trigger] u0[j], units@[j]),
                    forall|j: int| i <= j < u0.len() ==> #[trigger] units@[j] == u0[j],
                    pw == (|j: int| u0[j].base.just_won),
                    pl == (|j: int| u0[j].base.just_lost),
                    pn == (|j: int| names_winner(sel, u0[j])),
                    won == players_won + count_index(i as int, pw),
                    lost == players_lost + count_index(i as int, pl),
                    winner == winner_after(w0, players@, i as int, pn),
                decreases m - i,
            {
                proof {
                    lemma_count_index(i as int, pw);
                    lemma_count_index(i as int, pl);
                }
                let just_won = units[i].base.just_won;
                let just_lost = units[i].base.just_lost;
                if just_lost {
                    lost = lost + 1;
                }
                if just_won {
                    won = won + 1;
                    if (sel == GameModeSelection::Marathon || sel == GameModeSelection::Sprint) && winner.is_none() {
                        winner = Some(players[i].name.clone());
                    }
                }
                let ghost before = units@;
                settle_unit(&mut units[i]);
                assert forall|j: int| i < j < u0.len() implies #[trigger] units@[j] == u0[j] by {
                    assert(units@[j] == before[j]);
                }
                i = i + 1;
            }
            *state = State::Play { players_won: won, players_done, players_lost: lost, over, winner, pause };
        },
        other => {
            *state = other;
        },
    }
}

/// Moves the commands waiting in `pending`, in order, to the back of the
/// queues of the units they are addressed to (see `routed`).
pub fn distribute(pending: &mut VecDeque<UnitCommand>, queues: &mut Vec<VecDeque<UnitCommand>>)
    ensures
        final(pending)@.len() == 0,
        final(queues)@.len() == old(queues)@.len(),
        queues_view(final(queues)@) == routed(queues_view(old(queues)@), old(pending)@),
{
    let mut out: Vec<UnitCommand> = Vec::new();
    let ghost p0 = pending@;
    while pending.len() > 0
        invariant
            out@ + pending@ == p0,
        decreases pending@.len(),
    {
        match pending.pop_front() {
            Some(c) => {
                out.push(c);
                assert(out@ + pending@ =~= p0);
            },
            None => {},
        }
    }
    assert(out@ =~= p0);
    route(queues, out);
}

/// Whether unit `u` takes its controller's commands this frame: a local unit
/// that is playing.
pub open spec fn takes_frame(u: Unit) -> bool {
    u.kind is Local && u.base.state is Play
}

/// Appends one frame of controller commands for every local unit that is
/// playing, to its own queue, and advances its controller (see
/// `append_commands`). A controller whose commands cannot be made without
/// an overflow (see `append_ok`) is left as it is; the result says whether
/// none was.
pub fn append_frame(
    units: &mut Vec<Unit>,
    queues: &mut Vec<VecDeque<UnitCommand>>,
    config: &[crate::config::Player; 4],
    dpf: u64,
) -> (all: bool)
    requires
        old(queues)@.len() == old(units)@.len(),
    ensures
        final(units)@.len() == old(units)@.len(),
        final(queues)@.len() == old(queues)@.len(),
        forall|i: int|
            0 <= i < old(units)@.len() ==> {
                let u = #[trigger] old(units)@[i];
                if takes_frame(u) && append_ok(u.kind->mino_controller, *config, dpf) {
                    &&& final(units)@[i].base == u.base
                    &&& final(units)@[i].kind == Kind::Local {
                        rng: u.kind->rng,
                        mino_controller: after_frame(u.kind->mino_controller, *config, dpf),
                    }
                    &&& final(queues)@[i]@ == old(queues)@[i]@ + wrap_all(
                        i as usize,
                        frame_cmds(u.kind->mino_controller, *config),
                    )
                } else {
                    &&& final(units)@[i] == u
                    &&& final(queues)@[i]@ == old(queues)@[i]@
                }
            },
        !all <==> exists|i: int|
            0 <= i < old(units)@.len() && #[trigger] takes_frame(old(units)@[i]) && !append_ok(
                old(units)@[i].kind->mino_controller,
                *config,
                dpf,
            ),
{
    let ghost u0 = units@;
    let ghost q0 = queues@;
    let mut all = true;
    let mut i: usize = 0;
    while i < units.len()
        invariant
            0 <= i <= units@.len(),
            units@.len() == u0.len(),
            queues@.len() == q0.len(),
            q0.len() == u0.len(),
            forall|j: int|
                0 <= j < i ==> {
                    let u = #[trigger] u0[j];
                    if takes_frame(u) && append_ok(u.kind->mino_controller, *config, dpf) {
                        &&& units@[j].base == u.base
                        &&& units@[j].kind == Kind::Local {
                            rng: u.kind->rng,
                            mino_controller: after_frame(u.kind->mino_controller, *config, dpf),
                        }
                        &&& queues@[j]@ == q0[j]@ + wrap_all(j as usize, frame_cmds(u.kind->mino_controller, *config))
                    } else {
                        &&& units@[j] == u
                        &&& queues@[j]@ == q0[j]@
                    }
                },
            forall|j: int| i <= j < u0.len() ==> #[trigger] units@[j] == u0[j],
            forall|j: int| i <= j < u0.len() ==> #[trigger] queues@[j] == q0[j],
            !all <==> exists|j: int|
                0 <= j < i && #[trigger] takes_frame(u0[j]) && !append_ok(u0[j].kind->mino_controller, *config, dpf),
        decreases units@.len() - i,
    {
        let playing = matches!(units[i].base.state, crate::unit::State::Play);
        let (local, ready) = match &units[i].kind {
            Kind::Local { mino_controller, .. } => (true, mino_controller.append_check(config, dpf)),
            Kind::Network => (false, false),
        };
        let ghost ub = units@;
        let ghost qb = queues@;
        if playing && ready {
            let unit = &mut units[i];
            match &mut unit.kind {
                Kind::Local { mino_controller, .. } => {
                    mino_controller.append_commands(i, &mut queues[i], config, dpf);
                },
                Kind::Network => {},
            }
        }
        if playing && local && !ready {
            all = false;
            assert(takes_frame(u0[i as int]));
        }
        assert forall|j: int| i < j < u0.len() implies #[trigger] units@[j] == u0[j] by {
            assert(units@[j] == ub[j]);
        }
        assert forall|j: int| i < j < u0.len() implies #[trigger] queues@[j] == q0[j] by {
            assert(queues@[j] == qb[j]);
        }
        i = i + 1;
    }
    all
}

/// What became of the command at the front of a unit's queue.
pub enum Step {
    /// The queue was empty or the unit is not playing; nothing was run.
    Idle,
    /// The command was run; it is given back so that it can be sent on.
    Ran(UnitCommand),
    /// The unit was not ready for the command (see `command_ready`), which
    /// was dropped.
    Refused(UnitCommand),
}

/// The contents of the queues.
pub open spec fn queues_view(qs: Seq<VecDeque<UnitCommand>>) -> Seq<Seq<UnitCommand>> {
    qs.map_values(|q: VecDeque<UnitCommand>| q@)
}

/// The queues after each command of `out`, in order, is put at the back of
/// the queue of the unit it is addressed to; one addressed to no unit is
/// dropped.
pub open spec fn routed(qs: Seq<Seq<UnitCommand>>, out: Seq<UnitCommand>) -> Seq<Seq<UnitCommand>>
    decreases out.len(),
{
    if out.len() == 0 {
        qs
    } else {
        let r = routed(qs, out.drop_last());
        let c = out.last();
        if c.inner.0 < r.len() {
            r.update(c.inner.0 as int, r[c.inner.0 as int].push(c))
        } else {
            r
        }
    }
}

/// Routing keeps the number of queues.
pub proof fn lemma_routed_len(qs: Seq<Seq<UnitCommand>>, out: Seq<UnitCommand>)
    ensures
        routed(qs, out).len() == qs.len(),
    decreases out.len(),
{
    if out.len() > 0 {
        lemma_routed_len(qs, out.drop_last());
    }
}

/// Puts each command of `out` at the back of its unit's queue (see `routed`).
fn route(queues: &mut Vec<VecDeque<UnitCommand>>, out: Vec<UnitCommand>)
    ensures
        final(queues)@.len() == old(queues)@.len(),
        queues_view(final(queues)@) == routed(queues_view(old(queues)@), out@),
{
    let ghost q0 = queues_view(queues@);
    let mut i: usize = 0;
    while i < out.len()
        invariant
            0 <= i <= out@.len(),
            queues@.len() == q0.len(),
            queues_view(queues@) == routed(q0, out@.take(i as int)),
        decreases out@.len() - i,
    {
        let c = out[i];
        let ghost before = queues_view(queues@);
        proof {
            lemma_routed_len(q0, out@.take(i as int));
            assert(out@.take(i + 1).drop_last() =~= out@.take(i as int));
        }
        if c.inner.0 < queues.len() {
            queues[c.inner.0].push_back(c);
            assert(queues_view(queues@) =~= before.update(c.inner.0 as int, before[c.inner.0 as int].push(c)));
        }
        i = i + 1;
    }
    assert(out@.take(out@.len() as int) =~= out@);
}

/// `executed`, kept folded where only its name is needed.
#[verifier::opaque]
pub open spec fn executed_as(u0: Unit, u1: Unit, uid: usize, k: UnitCommandKind, out: Seq<UnitCommandInner>) -> bool {
    executed(u0, u1, uid, k, out)
}

/// Executes `cmd` as a command of unit `unit_id`.
fn run_command(unit: &mut Unit, unit_id: usize, cmd: UnitCommand) -> (out: Vec<UnitCommand>)
    requires
        command_ready(*old(unit), cmd.inner.1),
    ensures
        exists|inner: Seq<UnitCommandInner>|
            #![trigger wrap_with(inner, cmd.original)]
            executed_as(*old(unit), *final(unit), unit_id, cmd.inner.1, inner) && out@ == wrap_with(inner, cmd.original),
{
    let c = CommandWrapper { inner: (unit_id, cmd.inner.1), original: cmd.original };
    let out = c.execute(unit);
    proof {
        reveal(executed_as);
    }
    out
}

/// Runs the command at the front of the queue of unit `unit_id` when that
/// unit is playing. The command runs as a command of that unit, whatever
/// unit it names. If the unit is ready for it, the commands it asks for are
/// put at the back of their units' queues (see `routed`) and it is given
/// back; otherwise it is dropped.
pub fn run_next(units: &mut Vec<Unit>, queues: &mut Vec<VecDeque<UnitCommand>>, unit_id: usize) -> (r: Step)
    requires
        unit_id < old(units)@.len(),
        old(queues)@.len() == old(units)@.len(),
    ensures
        final(units)@.len() == old(units)@.len(),
        final(queues)@.len() == old(queues)@.len(),
        forall|i: int| 0 <= i < old(units)@.len() && i != unit_id ==> #[trigger] final(units)@[i] == old(units)@[i],
        ({
            let u0 = old(units)@[unit_id as int];
            let q0 = queues_view(old(queues)@);
            if q0[unit_id as int].len() == 0 || !(u0.base.state is Play) {
                &&& r is Idle
                &&& final(units)@ == old(units)@
                &&& queues_view(final(queues)@) == q0
            } else {
                let c = q0[unit_id as int][0];
                let q1 = q0.update(unit_id as int, q0[unit_id as int].drop_first());
                if command_ready(u0, c.inner.1) {
                    &&& r == Step::Ran(c)
                    &&& exists|inner: Seq<UnitCommandInner>|
                        #![trigger wrap_with(inner, c.original)]
                        executed_as(u0, final(units)@[unit_id as int], unit_id, c.inner.1, inner)
                            && queues_view(final(queues)@) == routed(q1, wrap_with(inner, c.original))
                } else {
                    &&& r == Step::Refused(c)
                    &&& final(units)@ == old(units)@
                    &&& queues_view(final(queues)@) == q1
                }
            }
        }),
{
    let ghost q0 = queues_view(queues@);
    if queues[unit_id].len() == 0 || !matches!(units[unit_id].base.state, crate::unit::State::Play) {
        assert(queues_view(queues@) =~= q0);
        return Step::Idle;
    }
    let front = queues[unit_id].pop_front();
    let ghost q1 = queues_view(queues@);
    assert(q1 =~= q0.update(unit_id as int, q0[unit_id as int].drop_first()));
    match front {
        Some(c) => {
            if !command_check(&units[unit_id], &c.inner.1) {
                return Step::Refused(c);
            }
            let out = run_command(&mut units[unit_id], unit_id, c);
            route(queues, out);
            Step::Ran(c)
        },
        None => Step::Idle,
    }
}

} // verus!
