use vstd::prelude::*;

use std::collections::VecDeque;

use crate::command::{Command, CommandWrapper};
use crate::game::center_shift;
use crate::mino::Mino;
use crate::mino_controller::{FallState, MinoController, MoveDirection, MoveState, RotDirection};
use crate::session::{is_fresh_play, Player, PlayerKind, State};
use crate::ui::GameModeSelection;
use crate::unit::{fresh_base, fresh_versus, Base, Kind, Mode, Unit, UnitCommand, UnitCommandKind};
use crate::well::{cell, well_shape, Well};

verus! {

/// The players of a game, their units and the commands waiting for them.
pub struct Room {
    pub selected_game_mode: GameModeSelection,
    pub players: Vec<Player>,
    pub units: Vec<Unit>,
    pub commands: VecDeque<UnitCommand>,
    pub just_added_player: bool,
    pub just_initted: bool,
}

impl Default for Room {
    /// An empty room in marathon mode.
    fn default() -> (r: Self)
        ensures
            r.selected_game_mode == GameModeSelection::Marathon,
            r.players@.len() == 0,
            r.units@.len() == 0,
            r.commands@.len() == 0,
            !r.just_added_player,
            !r.just_initted,
    {
        Room {
            selected_game_mode: GameModeSelection::Marathon,
            players: Vec::new(),
            units: Vec::new(),
            commands: VecDeque::new(),
            just_added_player: false,
            just_initted: false,
        }
    }
}

impl Room {
    /// Clears the flags that report what the last command did.
    pub fn reset_flags(&mut self)
        ensures
            !final(self).just_added_player,
            !final(self).just_initted,
            final(self).selected_game_mode == old(self).selected_game_mode,
            final(self).players == old(self).players,
            final(self).units == old(self).units,
            final(self).commands == old(self).commands,
    {
        self.just_added_player = false;
        self.just_initted = false;
    }
}

/// A command that changes the room.
pub enum RoomCommand {
    /// Take over the room of the host.
    Init(Room),
    /// Start a new game for every player.
    StartGame,
    /// Continue a saved game.
    StartGameFromSave(Unit),
    AddPlayer(Player),
}

impl Command for RoomCommand {

}

/// The mode a game of `sel` starts in, aiming at unit `target` in versus.
pub open spec fn started_mode(m: Mode, sel: GameModeSelection, target: int) -> bool {
    match sel {
        GameModeSelection::Marathon => m == (Mode::Marathon { level: 1, level_target: 50, lines_before_next_level: 10 }),
        GameModeSelection::Sprint => m == (Mode::Sprint { lines_cleared_target: 40 }),
        GameModeSelection::Versus => fresh_versus(m, target as usize),
        GameModeSelection::GameOfLife => m == (Mode::GameOfLife { count: 0 }),
    }
}

/// A controller at rest, reading the binds numbered `config_id`.
pub open spec fn fresh_controller(c: MinoController, config_id: int) -> bool {
    &&& c.move_direction == MoveDirection::Neither
    &&& c.move_state == MoveState::Still
    &&& c.rot_direction == RotDirection::Neither
    &&& c.fall_state == FallState::Fall
    &&& !c.store
    &&& c.fall_countdown == 0
    &&& c.move_repeat_countdown == 0
    &&& c.fall_duration == 400_000_000
    &&& c.joystick_id is None
    &&& c.config_id == config_id
}

/// The positions, in order, of the players at this machine.
pub open spec fn local_indices(players: Seq<Player>) -> Seq<usize>
    decreases players.len(),
{
    if players.len() == 0 {
        Seq::empty()
    } else {
        let r = local_indices(players.drop_last());
        if players.last().kind is Local {
            r.push((players.len() - 1) as usize)
        } else {
            r
        }
    }
}

/// The positions of the players at this machine are positions of players,
/// in increasing order.
pub proof fn lemma_local_indices(players: Seq<Player>)
    ensures
        local_indices(players).len() <= players.len(),
        forall|j: int| 0 <= j < local_indices(players).len() ==> #[trigger] local_indices(players)[j] < players.len(),
    decreases players.len(),
{
    if players.len() > 0 {
        lemma_local_indices(players.drop_last());
    }
}

/// The straight piece, moved to the middle of a well as wide as `w`.
pub open spec fn is_first_piece(m: Mino, w: Well) -> bool {
    exists|p: Mino| #![trigger p.is_piece(6)] p.is_piece(6) && m == p.moved(center_shift(p, w), 0)
}

/// A command, issued here, that hands unit `i` the first piece in a well
/// as wide as `w`.
pub open spec fn first_piece_cmd(c: UnitCommand, i: int, w: Well) -> bool {
    &&& c.original
    &&& c.inner.0 == i
    &&& c.inner.1 matches UnitCommandKind::NextMino(m) && is_first_piece(m, w)
}

/// Unit `i` of `n` for a player of kind `kind`, the `k`-th player at this
/// machine before it, as a new game of `sel` makes it.
pub open spec fn started_unit(u: Unit, sel: GameModeSelection, i: int, n: int, kind: PlayerKind, k: int) -> bool {
    &&& fresh_base(u.base)
    &&& started_mode(u.base.mode, sel, (i + 1) % n)
    &&& match kind {
        PlayerKind::Local(_) => u.kind matches Kind::Local { rng, mino_controller } && fresh_controller(
            mino_controller,
            k % 4,
        ) && rng.wf() && rng.queue@.len() == 5 && forall|j: int|
            0 <= j < 4 ==> (#[trigger] rng.queue@[j]).is_piece(6),
        PlayerKind::Network => u.kind is Network,
    }
}

/// The commands a new game queues: for each player at this machine, in
/// order, the first piece for its unit.
pub open spec fn start_commands_ok(cmds: Seq<UnitCommand>, locals: Seq<usize>, units: Seq<Unit>) -> bool {
    &&& cmds.len() == locals.len()
    &&& forall|j: int|
        0 <= j < locals.len() ==> first_piece_cmd(#[trigger] cmds[j], locals[j] as int, units[locals[j] as int].base.well)
}

/// The room after `cmd` when it is in state `(r0, s0)`: `r1` and `s1`.
pub open spec fn room_command_done(cmd: RoomCommand, r0: Room, s0: State, r1: Room, s1: State) -> bool {
    match cmd {
        RoomCommand::Init(init) => r1 == (Room { just_initted: true, ..init }) && s1 == s0,
        RoomCommand::StartGame => {
            let n = r0.players@.len();
            let locals = local_indices(r0.players@);
            &&& is_fresh_play(s1)
            &&& r1.selected_game_mode == r0.selected_game_mode
            &&& r1.players@ == r0.players@
            &&& r1.just_added_player == r0.just_added_player
            &&& r1.just_initted == r0.just_initted
            &&& r1.units@.len() == n
            &&& forall|i: int|
                0 <= i < n ==> started_unit(
                    #[trigger] r1.units@[i],
                    r0.selected_game_mode,
                    i,
                    n as int,
                    r0.players@[i].kind,
                    local_indices(r0.players@.take(i)).len() as int,
                )
            &&& r1.commands@.len() == r0.commands@.len() + locals.len()
            &&& r1.commands@.take(r0.commands@.len() as int) == r0.commands@
            &&& start_commands_ok(r1.commands@.skip(r0.commands@.len() as int), locals, r1.units@)
        },
        RoomCommand::StartGameFromSave(unit) => {
            &&& is_fresh_play(s1)
            &&& r1 == (Room { units: r1.units, ..r0 })
            &&& r1.units@ == r0.units@.push(unit)
        },
        RoomCommand::AddPlayer(player) => {
            &&& s1 == s0
            &&& r1 == (Room { players: r1.players, just_added_player: true, ..r0 })
            &&& r1.players@ == r0.players@.push(player)
        },
    }
}

/// A fresh unit for the player `player` at position `i` of `n`, the
/// `k`-th player at this machine before it; for a local player also the
/// command that hands its unit the first piece. A local player's generator
/// is made from `seed`.
fn start_unit(sel: GameModeSelection, i: usize, n: usize, player: &Player, k: usize, seed: u64) -> (r: (Unit, Option<UnitCommand>))
    requires
        i < n,
    ensures
        started_unit(r.0, sel, i as int, n as int, player.kind, k as int),
        match player.kind {
            PlayerKind::Local(_) => r.1 matches Some(c) && first_piece_cmd(c, i as int, r.0.base.well),
            PlayerKind::Network => r.1 is None,
        },
{
    let mode = match sel.mode() {
        Mode::Versus { lines_received, lines_received_sum, target_unit_id: _ } => Mode::Versus {
            lines_received,
            lines_received_sum,
            target_unit_id: (i + 1) % n,
        },
        m => m,
    };
    let base = Base::new(mode);
    match player.kind {
        PlayerKind::Local(_) => {
            let kind = Kind::local(MinoController::new(k % 4, None), seed);
            match kind {
                Kind::Local { mut rng, mino_controller } => {
                    let ghost q0 = rng.queue@;
                    let m = rng.next_mino_centered(&base.well);
                    assert(q0[0].is_piece(6));
                    assert forall|j: int| 0 <= j < 4 implies (#[trigger] rng.queue@[j]).is_piece(6) by {
                        assert(rng.queue@[j] == rng.queue@.drop_last()[j]);
                        assert(q0.drop_first()[j] == q0[j + 1]);
                    }
                    let cmd = (i, UnitCommandKind::NextMino(m)).wrap();
                    (Unit { base, kind: Kind::Local { rng, mino_controller } }, Some(cmd))
                },
                Kind::Network => {
                    assert(false);
                    (Unit { base, kind: Kind::Network }, None)
                },
            }
        },
        PlayerKind::Network => (Unit { base, kind: Kind::Network }, None),
    }
}

impl RoomCommand {
    /// Carries the command out on the room and the screen state (see
    /// `room_command_done`). A new game makes the generator of the unit of
    /// each player `i` at this machine from `seeds[i]`.
    pub fn execute(self, room: &mut Room, state: &mut State, seeds: &Vec<u64>)
        requires
            self is StartGame ==> seeds@.len() >= old(room).players@.len(),
        ensures
            room_command_done(self, *old(room), *old(state), *final(room), *final(state)),
    {
        match self {
            RoomCommand::Init(init_room) => {
                *room = init_room;
                room.just_initted = true;
            },
            RoomCommand::StartGame => {
                room.units.clear();
                *state = State::play();
                let n = room.players.len();
                let ghost players = room.players@;
                let ghost cmds0 = room.commands@;
                let ghost sel = room.selected_game_mode;
                let ghost added = room.just_added_player;
                let ghost initted = room.just_initted;
                let mut local_count: usize = 0;
                let mut i: usize = 0;
                while i < n
                    invariant
                        0 <= i <= n,
                        n == players.len(),
                        room.players@ == players,
                        room.selected_game_mode == sel,
                        room.just_added_player == added,
                        room.just_initted == initted,
                        local_count == local_indices(players.take(i as int)).len(),
                        local_count <= i,
                        seeds@.len() >= n,
                        room.units@.len() == i,
                        forall|u: int|
                            0 <= u < i ==> started_unit(
                                #[trigger] room.units@[u],
                                room.selected_game_mode,
                                u,
                                n as int,
                                players[u].kind,
                                local_indices(players.take(u)).len() as int,
                            ),
                        room.commands@.len() == cmds0.len() + local_count,
                        room.commands@.take(cmds0.len() as int) == cmds0,
                        start_commands_ok(room.commands@.skip(cmds0.len() as int), local_indices(players.take(i as int)), room.units@),
                    decreases n - i,
                {
                    let ghost before = room.commands@;
                    let ghost units0 = room.units@;
                    let ghost li0 = local_indices(players.take(i as int));
                    let (unit, cmd) = start_unit(room.selected_game_mode, i, n, &room.players[i], local_count, seeds[i]);
                    assert(players.take(i + 1).drop_last() =~= players.take(i as int));
                    assert(players.take(i + 1).last() == players[i as int]);
                    proof {
                        lemma_local_indices(players.take(i as int));
                    }
                    room.units.push(unit);
                    match cmd {
                        Some(c) => {
                            room.commands.push_back(c);
                            local_count = local_count + 1;
                        },
                        None => {},
                    }
                    proof {
                        let li = local_indices(players.take(i + 1));
                        let rest = room.commands@.skip(cmds0.len() as int);
                        let rest0 = before.skip(cmds0.len() as int);
                        assert(room.commands@.take(cmds0.len() as int) =~= cmds0);
                        assert forall|j: int| 0 <= j < li.len() implies first_piece_cmd(
                            #[trigger] rest[j],
                            li[j] as int,
                            room.units@[li[j] as int].base.well,
                        ) by {
                            assert(rest[j] == room.commands@[cmds0.len() + j]);
                            if j < li0.len() {
                                assert(li[j] == li0[j]);
                                assert(rest0[j] == before[cmds0.len() + j]);
                                assert(first_piece_cmd(rest0[j], li0[j] as int, units0[li0[j] as int].base.well));
                                assert(room.units@[li[j] as int] == units0[li0[j] as int]);
                            } else {
                                assert(li[j] == i);
                            }
                        }
                        assert forall|u: int| 0 <= u < i + 1 implies started_unit(
                            #[trigger] room.units@[u],
                            room.selected_game_mode,
                            u,
                            n as int,
                            players[u].kind,
                            local_indices(players.take(u)).len() as int,
                        ) by {
                            if u < i {
                                assert(room.units@[u] == units0[u]);
                            } else {
                                assert(players.take(u) =~= players.take(i as int));
                            }
                        }
                    }
                    i = i + 1;
                }
                assert(players.take(n as int) =~= players);
            },
            RoomCommand::StartGameFromSave(unit) => {
                *state = State::play();
                room.units.push(unit);
            },
            RoomCommand::AddPlayer(player) => {
                room.players.push(player);
                room.just_added_player = true;
            },
        }
    }
}

} // verus!
