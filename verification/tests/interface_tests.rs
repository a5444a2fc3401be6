use std::collections::VecDeque;

use tetris::command::CommandWrapper;
use tetris::config::{axis_motion, Bind, Conbind, Config, InputEvent, InputMethod, Player as Timing, PlayerBinds};
use tetris::lenio::{LenIO, ReadStep, MAX_LENGTH};
use tetris::mino_controller::{FallState, MinoController, MoveDirection, MoveState, RotDirection};
use tetris::network::{NetworkCommand, NetworkPump};
use tetris::room::RoomCommand;
use tetris::transform2::Transform2;
use tetris::ui::{
    prev_next_variant, CenteredLayout, EnumSelect, GameLayout, GameModeSelection, NetworkStateSelection, Pause,
    PauseSelection, TitleSelection,
};
use tetris::unit::{Mode, UnitCommand, UnitCommandKind};

fn frame(io: &mut LenIO<()>, payload: &[u8], split: usize) -> Vec<ReadStep> {
    let header = io.write(payload);
    let mut steps = Vec::new();
    steps.push(io.read(&header[..1]));
    steps.push(io.read(&header[1..]));
    assert_eq!(io.read_len(), payload.len());
    steps.push(io.read(&payload[..split]));
    if split < payload.len() {
        assert_eq!(io.read_len(), payload.len() - split);
        steps.push(io.read(&payload[split..]));
    }
    steps
}

#[test]
fn a_written_message_reads_back_with_a_trailing_zero() {
    let mut io = LenIO::new(());
    assert_eq!(io.read_len(), 1);
    let payload: Vec<u8> = (0..300u32).map(|i| (i % 251) as u8).collect();
    let steps = frame(&mut io, &payload, payload.len());
    let mut expected = payload.clone();
    expected.push(0);
    assert_eq!(steps, vec![ReadStep::Continue, ReadStep::Continue, ReadStep::Frame(expected)]);
    assert_eq!(io.read_len(), 1);
}

#[test]
fn a_message_may_arrive_in_parts() {
    let mut io = LenIO::new(());
    let payload = b"hello world".to_vec();
    let steps = frame(&mut io, &payload, 4);
    assert_eq!(steps[2], ReadStep::Unfinished);
    assert_eq!(steps[3], ReadStep::Frame(b"hello world\0".to_vec()));
    let steps = frame(&mut io, b"ok", 2);
    assert_eq!(steps[2], ReadStep::Frame(b"ok\0".to_vec()));
}

#[test]
fn the_length_prefix_is_big_endian() {
    let io = LenIO::new(());
    assert_eq!(io.write(&[0u8; 0x123]), [0x01, 0x23]);
    assert_eq!(io.write(&[]), [0, 0]);
    let big = vec![7u8; MAX_LENGTH];
    assert_eq!(io.write(&big), [0x10, 0x00]);
}

#[test]
fn an_empty_message_and_an_overlong_prefix() {
    let mut io = LenIO::new(());
    assert_eq!(io.read(&[0]), ReadStep::Continue);
    assert_eq!(io.read(&[0]), ReadStep::Continue);
    assert_eq!(io.read(&[]), ReadStep::Frame(vec![0]));
    let mut io = LenIO::new(());
    assert!(io.can_read(&[0x10]));
    assert_eq!(io.read(&[0x10]), ReadStep::Continue);
    assert!(io.can_read(&[0x00]));
    assert!(!io.can_read(&[0x01]));
    assert!(!io.can_read(&[0x00, 0x00]));
}

#[test]
fn network_commands_wrap_both_kinds() {
    let u: UnitCommand = CommandWrapper::new((1, UnitCommandKind::MoveLeft));
    assert!(matches!(NetworkCommand::from(u), NetworkCommand::UnitCommand(c) if c.inner.0 == 1));
    let r = CommandWrapper::new(RoomCommand::StartGame);
    assert!(matches!(NetworkCommand::from(r), NetworkCommand::RoomCommand(c) if matches!(c.inner, RoomCommand::StartGame)));
}

#[test]
fn the_pump_relays_to_every_other_stream() {
    let mut pump = NetworkPump::new();
    assert_eq!(pump.stream_index, 0);
    assert_eq!(pump.poll(3), Some(0));
    assert_eq!(pump.received(3, false), None);
    assert_eq!(pump.poll(3), Some(1));
    assert_eq!(pump.received(3, true), Some(vec![0, 2]));
    assert_eq!(pump.poll(3), Some(1));
    assert_eq!(pump.received(3, false), None);
    assert_eq!(pump.received(3, true), Some(vec![0, 1]));
    assert_eq!(pump.received(3, false), None);
    assert_eq!(pump.poll(3), None);
    let mut single = NetworkPump::new();
    assert_eq!(single.received(1, true), Some(vec![]));
}

#[test]
fn menus_wrap_around() {
    assert_eq!(TitleSelection::NetworkMode.next_variant(), TitleSelection::Continue);
    assert_eq!(TitleSelection::Continue.prev_variant(), TitleSelection::NetworkMode);
    assert_eq!(PauseSelection::QuitToDesktop.next_variant(), PauseSelection::Resume);
    assert_eq!(NetworkStateSelection::Offline.prev_variant(), NetworkStateSelection::Client);
    assert_eq!(GameModeSelection::GameOfLife.next_variant(), GameModeSelection::Marathon);
    let mut p = PauseSelection::Resume;
    for _ in 0..5 {
        p = p.next_variant();
    }
    assert_eq!(p, PauseSelection::Resume);
    let mut t = TitleSelection::GameMode;
    t = t.next_variant().prev_variant();
    assert_eq!(t, TitleSelection::GameMode);
    assert_eq!(Pause::default().selection, PauseSelection::Resume);
    assert_eq!(GameModeSelection::default(), GameModeSelection::Marathon);
}

#[test]
fn game_modes_start_from_their_defaults() {
    assert!(matches!(GameModeSelection::Marathon.mode(), Mode::Marathon { level: 1, level_target: 50, lines_before_next_level: 10 }));
    assert!(matches!(GameModeSelection::Sprint.mode(), Mode::Sprint { lines_cleared_target: 40 }));
    assert!(matches!(GameModeSelection::GameOfLife.mode(), Mode::GameOfLife { count: 0 }));
    assert!(matches!(GameModeSelection::Versus.mode(), Mode::Versus { lines_received_sum: 0, target_unit_id: 0, .. }));
}

#[test]
fn binds_fire_on_their_devices_only() {
    let b = Bind::new(87, Conbind::Button(11));
    let keyboard = InputMethod::new(true, None);
    let pad = InputMethod::new(false, Some(2));
    let press = InputEvent::KeyDown { keycode: Some(87), repeat: false };
    assert!(b.is_down(&press, &keyboard));
    assert!(!b.is_down(&press, &pad));
    assert!(!b.is_down(&InputEvent::KeyDown { keycode: Some(87), repeat: true }, &keyboard));
    assert!(b.is_up(&InputEvent::KeyUp { keycode: Some(87), repeat: false }, &keyboard));
    assert!(b.is_down(&InputEvent::ControllerButtonDown { which: 2, button: 11 }, &pad));
    assert!(!b.is_down(&InputEvent::ControllerButtonDown { which: 1, button: 11 }, &pad));
    assert!(!b.is_down(&InputEvent::ControllerAxisDown { which: 2, axis: 11 }, &pad));
    let a = Bind::new(1, Conbind::Axis(4));
    assert!(a.is_down(&InputEvent::ControllerAxisDown { which: 2, axis: 4 }, &pad));
    assert!(a.is_up(&InputEvent::ControllerAxisUp { which: 2, axis: 4 }, &pad));
}

#[test]
fn menu_choices_follow_the_binds() {
    let up = Bind::new(1, Conbind::Button(1));
    let down = Bind::new(2, Conbind::Button(2));
    let im = InputMethod::new(true, Some(0));
    let e = InputEvent::KeyDown { keycode: Some(2), repeat: false };
    assert_eq!(prev_next_variant(TitleSelection::Continue, &up, &down, &e, &im), TitleSelection::NewGame);
    let e = InputEvent::ControllerButtonDown { which: 0, button: 1 };
    assert_eq!(prev_next_variant(TitleSelection::Continue, &up, &down, &e, &im), TitleSelection::NetworkMode);
    assert_eq!(prev_next_variant(TitleSelection::Continue, &up, &down, &InputEvent::Other, &im), TitleSelection::Continue);
}

#[test]
fn axes_count_as_pressed_past_the_threshold() {
    let mut down = false;
    assert_eq!(axis_motion(&mut down, 100), None);
    assert_eq!(axis_motion(&mut down, 4096), Some(true));
    assert!(down);
    assert_eq!(axis_motion(&mut down, 5000), None);
    assert_eq!(axis_motion(&mut down, 4095), Some(false));
    assert!(!down);
}

#[test]
fn configuration_defaults() {
    let t = Timing::from_values(None, Some(10));
    assert_eq!((t.move_prepeat_duration, t.move_repeat_duration), (150_000_000, 10));
    let players = vec![Timing::from_values(Some(1), Some(2))];
    let binds = vec![PlayerBinds::default()];
    let c = Config::from_values(Some(1920), Some(-1), None, None, &players, &binds);
    assert_eq!(c.width, Some(1920));
    assert_eq!(c.height, Some(u32::MAX));
    assert!(!c.borderless);
    assert_eq!(c.block_size, 30);
    assert_eq!(c.players.len(), 8);
    assert_eq!(c.binds.len(), 8);
    assert_eq!(c.players[0].move_repeat_duration, 2);
    assert_eq!(c.players[7].move_prepeat_duration, 0);
    let c = Config::from_values(None, None, Some(true), Some(16), &vec![], &vec![]);
    assert!(c.borderless && c.block_size == 16 && c.width.is_none());
}

fn binds() -> [PlayerBinds; 4] {
    let mut b = PlayerBinds::default();
    b.left = Bind::new(1, Conbind::Button(1));
    b.right = Bind::new(2, Conbind::Button(2));
    b.rot_left = Bind::new(3, Conbind::Button(3));
    b.rot_right = Bind::new(4, Conbind::Button(4));
    b.softdrop = Bind::new(5, Conbind::Button(5));
    b.harddrop = Bind::new(6, Conbind::Button(6));
    b.store = Bind::new(7, Conbind::Button(7));
    [b, b, b, b]
}

fn key(k: i32) -> InputEvent {
    InputEvent::KeyDown { keycode: Some(k), repeat: false }
}

fn key_up(k: i32) -> InputEvent {
    InputEvent::KeyUp { keycode: Some(k), repeat: false }
}

#[test]
fn the_controller_follows_input_events() {
    let b = binds();
    let mut c = MinoController::new(1, None);
    assert_eq!(c.fall_duration, 400_000_000);
    c.update(&b, &key(1));
    assert_eq!((c.move_direction, c.move_state), (MoveDirection::Left, MoveState::Instant));
    c.update(&b, &key(2));
    assert_eq!(c.move_direction, MoveDirection::Right);
    c.update(&b, &key_up(1));
    assert_eq!(c.move_direction, MoveDirection::Right);
    c.update(&b, &key_up(2));
    assert_eq!((c.move_direction, c.move_state), (MoveDirection::Neither, MoveState::Still));
    c.update(&b, &key(3));
    assert_eq!(c.rot_direction, RotDirection::Left);
    c.update(&b, &key(5));
    assert_eq!(c.fall_state, FallState::Softdrop);
    c.update(&b, &key_up(5));
    assert_eq!(c.fall_state, FallState::Fall);
    c.update(&b, &key(6));
    assert_eq!(c.fall_state, FallState::Harddrop);
    c.update(&b, &key(7));
    assert!(c.store);
}

fn kinds(q: &VecDeque<UnitCommand>) -> Vec<String> {
    q.iter().map(|c| format!("{:?}", c.inner.1)).collect()
}

#[test]
fn one_frame_of_commands() {
    let b = binds();
    let timing = [Timing::from_values(Some(100), Some(30)); 4];
    let mut c = MinoController::new(0, None);
    c.update(&b, &key(1));
    c.update(&b, &key(4));
    c.update(&b, &key(7));
    let mut q = VecDeque::new();
    assert!(c.append_check(&timing, 50));
    c.append_commands(3, &mut q, &timing, 50);
    assert_eq!(kinds(&q), vec!["MoveLeft", "RotateRight", "ApplyGravity(0)", "Store"]);
    assert!(q.iter().all(|x| x.inner.0 == 3 && x.original));
    assert_eq!(c.move_state, MoveState::Prepeat);
    assert_eq!(c.move_repeat_countdown, 50);
    assert_eq!(c.fall_countdown, 50);
    assert_eq!(c.rot_direction, RotDirection::Neither);
    assert!(!c.store);

    let mut q = VecDeque::new();
    c.append_commands(3, &mut q, &timing, 120);
    assert_eq!(kinds(&q), vec!["ApplyGravity(0)"]);
    assert_eq!(c.move_repeat_countdown, 170);
    let mut q = VecDeque::new();
    c.append_commands(3, &mut q, &timing, 0);
    assert_eq!(kinds(&q), vec!["MoveLeft", "MoveLeft", "MoveLeft", "ApplyGravity(0)"]);
    assert_eq!(c.move_state, MoveState::Repeat);
    assert_eq!(c.move_repeat_countdown, 10);
}

#[test]
fn gravity_counts_whole_fall_intervals() {
    let timing = [Timing::from_values(None, None); 4];
    let mut c = MinoController::new(0, None);
    c.fall_countdown = 900_000_000;
    let mut q = VecDeque::new();
    c.append_commands(0, &mut q, &timing, 16);
    assert_eq!(kinds(&q), vec!["ApplyGravity(2)"]);
    assert_eq!(c.fall_countdown, 100_000_016);
    c.fall_state = FallState::Harddrop;
    let mut q = VecDeque::new();
    c.append_commands(0, &mut q, &timing, 16);
    assert_eq!(kinds(&q), vec![format!("ApplyGravity({})", i32::MAX)]);
    assert_eq!(c.fall_state, FallState::Fall);
}

#[test]
fn layouts_place_columns_and_rows() {
    let mut g = GameLayout { x: 0, y: 0, width: 100, expected_width: 40 };
    assert_eq!(g.centered_x(), 30);
    g.row(10);
    g.row_margin(5);
    assert_eq!(g.y(), 15);
    g.col(20);
    assert_eq!((g.x(), g.y()), (50, 0));
    g.col_margin(3);
    let v = g.as_vec2i();
    assert_eq!((v.x, v.y), (53, 0));
    let mut c = CenteredLayout { y: 0, width: 101 };
    assert_eq!(c.centered_x(50), 25);
    c.row(7);
    c.row_margin(3);
    assert_eq!(c.y, 10);
}

#[test]
fn matrix_entries_by_column_and_row() {
    let mut t = Transform2 { matrix: [0, 1, 2, 3, 4, 5, 6, 7, 8] };
    assert_eq!(*t.index((1, 2)), 7);
    *t.index_mut((2, 0)) = 20;
    assert_eq!(t.matrix, [0, 1, 20, 3, 4, 5, 6, 7, 8]);
    assert_eq!(*t.index((2, 0)), 20);
    let d: Transform2<i32> = Transform2::default();
    assert_eq!(d.matrix, [0; 9]);
}
