use std::collections::VecDeque;

use tetris::command::{Command, CommandWrapper};
use tetris::config::InputMethod;
use tetris::config::Player as Timing;
use tetris::frame::{
    advance_animation, advance_animations, append_frame, run_next, settle_units, update_over, Step, GAME_OF_LIFE_DURATION,
    LINE_CLEAR_DURATION,
};
use tetris::mino::Mino;
use tetris::mino_controller::MinoController;
use tetris::room::{Room, RoomCommand};
use tetris::session::{controller_in_use, player_with_controller, ControllerSlots, Player, PlayerKind, State};
use tetris::ui::GameModeSelection;
use tetris::unit::{Kind, Mode, Unit, UnitCommand, UnitCommandKind};
use tetris::well::well_put;

fn blocks(m: &Mino) -> Vec<(i32, i32)> {
    m.blocks.iter().map(|b| (b.x, b.y)).collect()
}

fn local_player(name: &str, controller: Option<usize>) -> Player {
    Player::new(String::from(name), InputMethod::new(controller.is_none(), controller))
}

fn network_player(name: &str) -> Player {
    let mut p = Player::default();
    p.name = String::from(name);
    p
}

fn is_fresh_play(s: &State) -> bool {
    matches!(
        s,
        State::Play { players_won: 0, players_done: 0, players_lost: 0, over: false, winner: None, pause: None }
    )
}

#[test]
fn players_and_play_state() {
    let p = local_player("ann", Some(2));
    assert_eq!(p.name, "ann");
    assert!(matches!(p.kind, PlayerKind::Local(InputMethod { keyboard: None, controller: Some(2) })));
    let d = Player::default();
    assert!(matches!(d.kind, PlayerKind::Network));
    assert_eq!(d.name, "");
    assert!(matches!(PlayerKind::default(), PlayerKind::Network));
    assert!(is_fresh_play(&State::play()));
}

#[test]
fn adding_players_raises_the_flag() {
    let mut room = Room::default();
    let mut state = State::Lobby;
    assert!(matches!(room.selected_game_mode, GameModeSelection::Marathon));
    RoomCommand::AddPlayer(local_player("a", None)).execute(&mut room, &mut state, &vec![1, 2, 3, 4, 5, 6, 7, 8]);
    assert_eq!(room.players.len(), 1);
    assert!(room.just_added_player);
    assert!(matches!(state, State::Lobby));
    room.reset_flags();
    assert!(!room.just_added_player && !room.just_initted);
    assert_eq!(room.players.len(), 1);
}

#[test]
fn starting_a_versus_game_links_the_units_in_a_ring() {
    let mut room = Room::default();
    room.selected_game_mode = GameModeSelection::Versus;
    room.players.push(local_player("a", None));
    room.players.push(network_player("b"));
    room.players.push(local_player("c", Some(1)));
    let mut state = State::Lobby;
    RoomCommand::StartGame.execute(&mut room, &mut state, &vec![1, 2, 3, 4, 5, 6, 7, 8]);
    assert!(is_fresh_play(&state));
    assert_eq!(room.units.len(), 3);
    let targets: Vec<usize> = room
        .units
        .iter()
        .map(|u| match &u.base.mode {
            Mode::Versus { target_unit_id, .. } => *target_unit_id,
            _ => panic!("not versus"),
        })
        .collect();
    assert_eq!(targets, vec![1, 2, 0]);
    let configs: Vec<Option<usize>> = room
        .units
        .iter()
        .map(|u| match &u.kind {
            Kind::Local { mino_controller, .. } => Some(mino_controller.config_id),
            Kind::Network => None,
        })
        .collect();
    assert_eq!(configs, vec![Some(0), None, Some(1)]);
    assert_eq!(room.commands.len(), 2);
    let ids: Vec<usize> = room.commands.iter().map(|c| c.inner.0).collect();
    assert_eq!(ids, vec![0, 2]);
    for c in room.commands.iter() {
        assert!(c.original);
        match c.inner.1 {
            UnitCommandKind::NextMino(m) => assert_eq!(blocks(&m), vec![(3, 0), (4, 0), (5, 0), (6, 0)]),
            _ => panic!("expected the first piece"),
        }
    }
}

#[test]
fn restarting_replaces_the_units() {
    let mut room = Room::default();
    room.selected_game_mode = GameModeSelection::Sprint;
    room.players.push(local_player("a", None));
    let mut state = State::Title;
    RoomCommand::StartGame.execute(&mut room, &mut state, &vec![1, 2, 3, 4, 5, 6, 7, 8]);
    RoomCommand::StartGame.execute(&mut room, &mut state, &vec![1, 2, 3, 4, 5, 6, 7, 8]);
    assert_eq!(room.units.len(), 1);
    assert!(matches!(room.units[0].base.mode, Mode::Sprint { lines_cleared_target: 40 }));
    assert_eq!(room.commands.len(), 2);
}

#[test]
fn five_local_players_cycle_through_four_settings() {
    let mut room = Room::default();
    for i in 0..5 {
        room.players.push(local_player("p", Some(i)));
    }
    let mut state = State::Lobby;
    RoomCommand::StartGame.execute(&mut room, &mut state, &vec![1, 2, 3, 4, 5, 6, 7, 8]);
    let configs: Vec<usize> = room
        .units
        .iter()
        .map(|u| match &u.kind {
            Kind::Local { mino_controller, .. } => mino_controller.config_id,
            Kind::Network => panic!(),
        })
        .collect();
    assert_eq!(configs, vec![0, 1, 2, 3, 0]);
}

#[test]
fn continuing_a_saved_game_and_taking_over_a_room() {
    let mut room = Room::default();
    let mut state = State::Title;
    RoomCommand::StartGameFromSave(Unit::network(Mode::default_marathon())).execute(&mut room, &mut state, &vec![1, 2, 3, 4, 5, 6, 7, 8]);
    assert_eq!(room.units.len(), 1);
    assert!(is_fresh_play(&state));

    let mut host = Room::default();
    host.players.push(network_player("h"));
    host.selected_game_mode = GameModeSelection::GameOfLife;
    let cmd = RoomCommand::Init(host).wrap();
    assert!(cmd.original);
    cmd.inner.execute(&mut room, &mut state, &vec![1, 2, 3, 4, 5, 6, 7, 8]);
    assert!(room.just_initted);
    assert_eq!(room.players.len(), 1);
    assert_eq!(room.units.len(), 0);
    assert!(matches!(room.selected_game_mode, GameModeSelection::GameOfLife));
}

#[test]
fn animations_give_way_to_play() {
    let mut s = tetris::unit::State::LineClear { countdown: 0 };
    advance_animation(&mut s, LINE_CLEAR_DURATION - 1);
    assert!(matches!(s, tetris::unit::State::LineClear { countdown: c } if c == LINE_CLEAR_DURATION - 1));
    advance_animation(&mut s, 1);
    assert!(matches!(s, tetris::unit::State::Play));
    let mut g = tetris::unit::State::GameOfLife { countdown: 100 };
    advance_animation(&mut g, GAME_OF_LIFE_DURATION);
    assert!(matches!(g, tetris::unit::State::Play));
    let mut w = tetris::unit::State::Win;
    advance_animation(&mut w, 1_000_000_000);
    assert!(matches!(w, tetris::unit::State::Win));
}

#[test]
fn versus_ends_when_one_player_is_left() {
    let players = vec![network_player("a"), network_player("b"), network_player("c")];
    let mut units = vec![
        Unit::network(Mode::default_versus()),
        Unit::network(Mode::default_versus()),
        Unit::network(Mode::default_versus()),
    ];
    units[0].base.lose();
    units[2].base.lose();
    let mut state = State::play();
    update_over(&mut state, GameModeSelection::Versus, &players, &units);
    assert!(is_fresh_play(&state));
    if let State::Play { players_lost, .. } = &mut state {
        *players_lost = 2;
    }
    update_over(&mut state, GameModeSelection::Versus, &players, &units);
    match &state {
        State::Play { over, winner, .. } => {
            assert!(*over);
            assert_eq!(winner.as_deref(), Some("b"));
        }
        _ => panic!(),
    }
}

#[test]
fn other_modes_end_when_everyone_has_won() {
    let players = vec![network_player("a"), network_player("b")];
    let units = vec![Unit::network(Mode::default_sprint()), Unit::network(Mode::default_sprint())];
    let mut state = State::play();
    if let State::Play { players_won, .. } = &mut state {
        *players_won = 1;
    }
    update_over(&mut state, GameModeSelection::Sprint, &players, &units);
    assert!(matches!(state, State::Play { over: false, .. }));
    if let State::Play { players_won, .. } = &mut state {
        *players_won = 2;
    }
    update_over(&mut state, GameModeSelection::Sprint, &players, &units);
    assert!(matches!(state, State::Play { over: true, .. }));
    let mut title = State::Title;
    update_over(&mut title, GameModeSelection::Sprint, &players, &units);
    assert!(matches!(title, State::Title));
}

#[test]
fn the_end_of_a_frame_counts_results_and_lowers_flags() {
    let players = vec![network_player("a"), network_player("b")];
    let mut units = vec![
        Unit::local(Mode::Marathon { level: 3, level_target: 50, lines_before_next_level: 30 }, MinoController::new(0, None), 7),
        Unit::network(Mode::default_sprint()),
    ];
    units[0].base.just_changed_mino = true;
    units[0].base.just_changed_level = true;
    if let Kind::Local { mino_controller, .. } = &mut units[0].kind {
        mino_controller.fall_countdown = 123;
    }
    units[1].base.win();
    units[0].base.lose();
    let mut state = State::play();
    settle_units(&mut units, &players, GameModeSelection::Marathon, &mut state);
    match &state {
        State::Play { players_won, players_lost, winner, .. } => {
            assert_eq!((*players_won, *players_lost), (1, 1));
            assert_eq!(winner.as_deref(), Some("b"));
        }
        _ => panic!(),
    }
    match &units[0].kind {
        Kind::Local { mino_controller, .. } => {
            assert_eq!(mino_controller.fall_countdown, 0);
            assert_eq!(mino_controller.fall_duration, 307_692_308);
        }
        Kind::Network => panic!(),
    }
    assert!(!units[0].base.just_lost && !units[1].base.just_won && !units[0].base.just_changed_mino);
}

#[test]
fn commands_run_from_each_units_queue() {
    let mut units = vec![
        Unit::local(Mode::default_marathon(), MinoController::new(0, None), 7),
        Unit::network(Mode::default_marathon()),
    ];
    let mut queues: Vec<VecDeque<UnitCommand>> = vec![VecDeque::new(), VecDeque::new()];
    assert!(matches!(run_next(&mut units, &mut queues, 0), Step::Idle));
    queues[0].push_back(CommandWrapper::new((5, UnitCommandKind::NextMino(Mino::o()))));
    queues[0].push_back(CommandWrapper::new((0, UnitCommandKind::ApplyGravity(100))));
    assert!(matches!(run_next(&mut units, &mut queues, 0), Step::Ran(_)));
    assert!(units[0].base.falling_mino.is_some());
    assert!(matches!(run_next(&mut units, &mut queues, 0), Step::Ran(_)));
    assert_eq!(queues[0].len(), 3);
    assert!(queues[1].is_empty());
    units[0].base.lose();
    assert!(matches!(run_next(&mut units, &mut queues, 0), Step::Idle));
    assert_eq!(queues[0].len(), 3);
}

#[test]
fn a_command_the_unit_is_not_ready_for_is_dropped() {
    let mut units = vec![Unit::network(Mode::GameOfLife { count: u32::MAX })];
    let mut queues: Vec<VecDeque<UnitCommand>> = vec![VecDeque::new()];
    queues[0].push_back(CommandWrapper::new((0, UnitCommandKind::GameOfLife)));
    assert!(matches!(run_next(&mut units, &mut queues, 0), Step::Refused(_)));
    assert!(queues[0].is_empty());
    assert!(matches!(units[0].base.mode, Mode::GameOfLife { count: u32::MAX }));
    let mut w = Unit::network(Mode::default_marathon());
    well_put(&mut w.base.well, 0, 0, None);
    let mut units = vec![w];
    queues[0].push_back(CommandWrapper::new((0, UnitCommandKind::PreGameOfLife)));
    assert!(matches!(run_next(&mut units, &mut queues, 0), Step::Ran(_)));
}

#[test]
fn controllers_get_the_smallest_free_number() {
    let mut slots = ControllerSlots::new(3);
    assert_eq!(slots.take(), Some(0));
    assert_eq!(slots.take(), Some(1));
    slots.release(0);
    assert_eq!(slots.take(), Some(0));
    assert_eq!(slots.take(), Some(2));
    assert_eq!(slots.take(), None);
}

#[test]
fn finding_the_players_of_a_controller() {
    let players = vec![local_player("a", Some(1)), network_player("b"), local_player("c", Some(1)), local_player("d", None)];
    assert!(controller_in_use(&players, 1));
    assert!(!controller_in_use(&players, 0));
    assert_eq!(player_with_controller(&players, 1), Some(2));
    assert_eq!(player_with_controller(&players, 3), None);
}

#[test]
fn a_frame_of_commands_for_every_playing_local_unit() {
    let timing = [Timing::from_values(None, None); 4];
    let mut units = vec![
        Unit::local(Mode::default_marathon(), MinoController::new(0, None), 7),
        Unit::network(Mode::default_marathon()),
        Unit::local(Mode::default_marathon(), MinoController::new(1, None), 7),
    ];
    units[2].base.state = tetris::unit::State::LineClear { countdown: 0 };
    let mut queues: Vec<VecDeque<UnitCommand>> = vec![VecDeque::new(), VecDeque::new(), VecDeque::new()];
    assert!(append_frame(&mut units, &mut queues, &timing, 16));
    assert_eq!(queues.iter().map(|q| q.len()).collect::<Vec<_>>(), vec![1, 0, 0]);
    assert!(matches!(queues[0][0].inner, (0, UnitCommandKind::ApplyGravity(0))));
    match &units[0].kind {
        Kind::Local { mino_controller, .. } => assert_eq!(mino_controller.fall_countdown, 16),
        Kind::Network => panic!(),
    }
    advance_animations(&mut units, LINE_CLEAR_DURATION);
    assert!(matches!(units[2].base.state, tetris::unit::State::Play));
    assert!(matches!(units[0].base.state, tetris::unit::State::Play));
    if let Kind::Local { mino_controller, .. } = &mut units[0].kind {
        mino_controller.move_state = tetris::mino_controller::MoveState::Instant;
    }
    assert!(!append_frame(&mut units, &mut queues, &timing, 16));
    assert_eq!(queues[0].len(), 1);
}
