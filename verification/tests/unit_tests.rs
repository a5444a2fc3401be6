use std::collections::VecDeque;

use tetris::block::Data;
use tetris::command::CommandWrapper;
use tetris::mino::Mino;
use tetris::mino_controller::MinoController;
use tetris::unit::{
    get_level_fall_duration, get_lines_before_next_level, update_level, Base, Kind, Mode, State, Unit,
    UnitCommand, UnitCommandKind,
};
use tetris::rng::MinoRng;
use tetris::unit_commands::{execute_unit_command, garbage_order};
use tetris::vec2::vec2;
use tetris::well::{well_at, well_height, well_put, well_width};

fn blocks(m: &Mino) -> Vec<(i32, i32)> {
    m.blocks.iter().map(|b| (b.x, b.y)).collect()
}

fn run(unit: &mut Unit, kind: UnitCommandKind) -> Vec<UnitCommand> {
    CommandWrapper::new((0usize, kind)).execute(unit)
}

fn local(mode: Mode) -> Unit {
    Unit::local(mode, MinoController::new(0, None), 7)
}

#[test]
fn level_helpers() {
    assert_eq!(get_lines_before_next_level(1), 10);
    assert_eq!(get_lines_before_next_level(3), 30);
    assert_eq!(get_level_fall_duration(1), 400_000_000);
    assert_eq!(get_level_fall_duration(2), 347_826_087);
    assert_eq!(get_level_fall_duration(11), 160_000_000);
    assert_eq!(get_level_fall_duration(3), 307_692_308);
}

#[test]
fn update_level_counts_down_and_levels_up() {
    let mut level = 1;
    let mut lines = 10;
    assert!(!update_level(&mut level, &mut lines, 4));
    assert_eq!((level, lines), (1, 6));
    assert!(update_level(&mut level, &mut lines, 6));
    assert_eq!((level, lines), (2, 20));
    let mut level = 1;
    let mut lines = 1;
    assert!(update_level(&mut level, &mut lines, 40));
    assert_eq!((level, lines), (3, 11));
}

#[test]
fn default_modes() {
    assert!(matches!(Mode::default_marathon(), Mode::Marathon { level: 1, level_target: 50, lines_before_next_level: 10 }));
    assert!(matches!(Mode::default_sprint(), Mode::Sprint { lines_cleared_target: 40 }));
    assert!(matches!(Mode::default_game_of_life(), Mode::GameOfLife { count: 0 }));
    match Mode::default_versus() {
        Mode::Versus { lines_received, lines_received_sum, target_unit_id } => {
            assert!(lines_received.is_empty());
            assert_eq!(lines_received_sum, 0);
            assert_eq!(target_unit_id, 0);
        }
        _ => panic!("not versus"),
    }
}

#[test]
fn new_base_and_its_flags() {
    let mut b = Base::new(Mode::default_sprint());
    assert_eq!(well_width(&b.well), 10);
    assert_eq!(well_height(&b.well), 20);
    assert_eq!(b.animate_line, vec![false; 20]);
    assert!(matches!(b.state, State::Play));
    assert!(b.can_store_mino && b.falling_mino.is_none() && b.stored_mino.is_none());
    b.win();
    assert!(matches!(b.state, State::Win) && b.just_won);
    b.reset_flags();
    assert!(!b.just_won);
    b.win();
    assert!(!b.just_won);
    b.lose();
    assert!(matches!(b.state, State::Lose) && b.just_lost);
}

#[test]
fn new_units() {
    let u = local(Mode::default_marathon());
    match &u.kind {
        Kind::Local { rng, mino_controller } => {
            assert_eq!(rng.queue.len(), 5);
            for m in rng.queue.iter() {
                assert_eq!(blocks(m), blocks(&Mino::i()));
            }
            assert_eq!(mino_controller.config_id, 0);
        }
        Kind::Network => panic!("not local"),
    }
    let n = Unit::network(Mode::default_sprint());
    assert!(matches!(n.kind, Kind::Network));
}

#[test]
fn next_mino_hands_out_the_queue_in_order() {
    let mut u = local(Mode::default_marathon());
    if let Kind::Local { rng, .. } = &mut u.kind {
        let m = rng.next_mino();
        assert_eq!(blocks(&m), blocks(&Mino::i()));
        assert_eq!(rng.queue.len(), 5);
        let c = rng.next_mino_centered(&u.base.well);
        assert_eq!(blocks(&c), vec![(3, 0), (4, 0), (5, 0), (6, 0)]);
    }
}

#[test]
fn a_new_piece_falls_with_gravity() {
    let mut u = local(Mode::default_marathon());
    assert!(run(&mut u, UnitCommandKind::NextMino(Mino::o())).is_empty());
    assert!(u.base.just_changed_mino);
    assert!(run(&mut u, UnitCommandKind::ApplyGravity(5)).is_empty());
    assert_eq!(blocks(u.base.falling_mino.as_ref().unwrap()), vec![(0, 5), (1, 5), (0, 6), (1, 6)]);
    assert!(run(&mut u, UnitCommandKind::MoveRight).is_empty());
    assert_eq!(blocks(u.base.falling_mino.as_ref().unwrap()), vec![(1, 5), (2, 5), (1, 6), (2, 6)]);
}

#[test]
fn a_landing_piece_is_laid_and_asks_for_the_next() {
    let mut u = local(Mode::default_marathon());
    run(&mut u, UnitCommandKind::NextMino(Mino::o()));
    let out = run(&mut u, UnitCommandKind::ApplyGravity(100));
    assert_eq!(well_at(&u.base.well, 0, 19), Some(Data::yellow()));
    assert_eq!(well_at(&u.base.well, 1, 18), Some(Data::yellow()));
    assert_eq!(out.len(), 3);
    assert!(out.iter().all(|c| c.original && c.inner.0 == 0));
    match out[0].inner.1 {
        UnitCommandKind::NextMino(m) => assert_eq!(blocks(&m), vec![(3, 0), (4, 0), (5, 0), (6, 0)]),
        _ => panic!("expected the next piece"),
    }
    assert!(matches!(out[1].inner.1, UnitCommandKind::PreClearLines));
    assert!(matches!(out[2].inner.1, UnitCommandKind::PreGameOfLife));
}

#[test]
fn a_piece_that_cannot_be_laid_loses_the_game() {
    let mut u = local(Mode::default_marathon());
    well_put(&mut u.base.well, 0, 0, Some(Data::gray()));
    let mut m = Mino::o();
    m.translate(vec2::new(0, -2));
    run(&mut u, UnitCommandKind::NextMino(m));
    let out = run(&mut u, UnitCommandKind::ApplyGravity(1));
    assert!(out.is_empty());
    assert!(matches!(u.base.state, State::Lose));
    assert!(u.base.just_lost);
}

#[test]
fn full_rows_are_counted_then_cleared() {
    let mut u = local(Mode::default_marathon());
    for x in 0..10 {
        well_put(&mut u.base.well, x, 19, Some(Data::gray()));
    }
    well_put(&mut u.base.well, 4, 18, Some(Data::cyan()));
    let out = run(&mut u, UnitCommandKind::PreClearLines);
    assert!(out.is_empty());
    assert_eq!(u.base.lines_cleared, 1);
    assert!(u.base.just_cleared_lines);
    assert!(matches!(u.base.state, State::LineClear { countdown: 0 }));
    assert!(u.base.animate_line[19] && !u.base.animate_line[18]);
    assert!(matches!(u.base.mode, Mode::Marathon { level: 1, lines_before_next_level: 9, .. }));
    run(&mut u, UnitCommandKind::ClearLines);
    assert_eq!(u.base.animate_line, vec![false; 20]);
    assert_eq!(well_at(&u.base.well, 4, 19), Some(Data::cyan()));
    assert_eq!(well_at(&u.base.well, 0, 19), None);
}

#[test]
fn reaching_the_sprint_target_wins() {
    let mut u = local(Mode::Sprint { lines_cleared_target: 40 });
    u.base.lines_cleared = 39;
    run(&mut u, UnitCommandKind::ClearLines);
    assert!(matches!(u.base.state, State::Play));
    u.base.lines_cleared = 40;
    run(&mut u, UnitCommandKind::ClearLines);
    assert!(matches!(u.base.state, State::Win) && u.base.just_won);
}

#[test]
fn reaching_the_marathon_target_level_wins() {
    let mut u = local(Mode::Marathon { level: 50, level_target: 50, lines_before_next_level: 500 });
    run(&mut u, UnitCommandKind::ClearLines);
    assert!(matches!(u.base.state, State::Win));
}

#[test]
fn received_lines_become_garbage_orders() {
    let mut u = local(Mode::Versus { lines_received: VecDeque::new(), lines_received_sum: 0, target_unit_id: 1 });
    run(&mut u, UnitCommandKind::SendLines(2));
    run(&mut u, UnitCommandKind::SendLines(1));
    match &u.base.mode {
        Mode::Versus { lines_received, lines_received_sum, .. } => {
            assert_eq!(lines_received.iter().copied().collect::<Vec<_>>(), vec![2, 1]);
            assert_eq!(*lines_received_sum, 3);
        }
        _ => panic!(),
    }
    for x in 0..10 {
        if x != 5 {
            well_put(&mut u.base.well, x, 19, Some(Data::cyan()));
        }
    }
    well_put(&mut u.base.well, 5, 19, Some(Data::cyan()));
    let out = run(&mut u, UnitCommandKind::PreClearLines);
    assert_eq!(out.len(), 3);
    match (out[0].inner, out[1].inner) {
        ((0, UnitCommandKind::AddLines(2, g1)), (0, UnitCommandKind::AddLines(1, g2))) => {
            let mut same = MinoRng::fair(7);
            assert_eq!(g1, same.draw() % 10);
            assert_eq!(g2, same.draw() % 10);
        }
        _ => panic!("expected garbage orders"),
    }
    assert!(matches!(out[2].inner, (1, UnitCommandKind::SendLines(1))));
}

#[test]
fn garbage_lines_push_the_well_up() {
    let mut u = Unit::network(Mode::Versus { lines_received: VecDeque::new(), lines_received_sum: 2, target_unit_id: 0 });
    well_put(&mut u.base.well, 3, 19, Some(Data::cyan()));
    run(&mut u, UnitCommandKind::AddLines(2, 4));
    assert_eq!(well_at(&u.base.well, 3, 17), Some(Data::cyan()));
    for y in 18..20 {
        for x in 0..10 {
            let expected = if x == 4 { None } else { Some(Data::gray()) };
            assert_eq!(well_at(&u.base.well, x, y), expected);
        }
    }
    assert!(matches!(u.base.mode, Mode::Versus { lines_received_sum: 0, .. }));
}

#[test]
fn the_game_of_life_steps_every_fourth_time() {
    let mut u = Unit::network(Mode::GameOfLife { count: 2 });
    well_put(&mut u.base.well, 0, 1, Some(Data::cyan()));
    well_put(&mut u.base.well, 2, 1, Some(Data::cyan()));
    well_put(&mut u.base.well, 1, 0, Some(Data::cyan()));
    run(&mut u, UnitCommandKind::GameOfLife);
    assert_eq!(well_at(&u.base.well, 0, 1), Some(Data::cyan()));
    run(&mut u, UnitCommandKind::GameOfLife);
    assert!(matches!(u.base.mode, Mode::GameOfLife { count: 4 }));
    for x in 0..10 {
        for y in 0..20 {
            let expected = if (x, y) == (1, 1) { Some(Data::blue()) } else { None };
            assert_eq!(well_at(&u.base.well, x, y), expected);
        }
    }
}

#[test]
fn pre_game_of_life_starts_the_animation() {
    let mut u = local(Mode::default_game_of_life());
    run(&mut u, UnitCommandKind::PreGameOfLife);
    assert!(matches!(u.base.state, State::GameOfLife { countdown: 0 }));
}

#[test]
fn storing_swaps_with_the_stored_piece() {
    let mut u = local(Mode::default_marathon());
    let mut t = Mino::t();
    t.rotr();
    t.translate(vec2::new(3, 4));
    run(&mut u, UnitCommandKind::NextMino(t));
    let out = run(&mut u, UnitCommandKind::Store);
    assert!(!u.base.can_store_mino);
    assert!(u.base.falling_mino.is_none());
    assert_eq!(blocks(u.base.stored_mino.as_ref().unwrap()), blocks(&Mino::t()));
    assert_eq!(out.len(), 1);
    assert!(matches!(out[0].inner, (0, UnitCommandKind::NextMino(_))));

    let again = run(&mut u, UnitCommandKind::Store);
    assert!(again.is_empty());

    u.base.can_store_mino = true;
    run(&mut u, UnitCommandKind::NextMino(Mino::o()));
    let out = run(&mut u, UnitCommandKind::Store);
    assert!(out.is_empty());
    assert!(u.base.just_changed_mino);
    assert_eq!(blocks(u.base.falling_mino.as_ref().unwrap()), vec![(3, 1), (4, 1), (5, 1), (4, 0)]);
    assert_eq!(blocks(u.base.stored_mino.as_ref().unwrap()), blocks(&Mino::o()));
}

#[test]
fn commands_keep_their_origin_flag() {
    let mut u = local(Mode::default_marathon());
    run(&mut u, UnitCommandKind::NextMino(Mino::o()));
    let received = CommandWrapper { inner: (0usize, UnitCommandKind::ApplyGravity(100)), original: false };
    let out = received.execute(&mut u);
    assert_eq!(out.len(), 3);
    assert!(out.iter().all(|c| !c.original));
}

#[test]
fn executing_a_plain_command() {
    let mut u = local(Mode::default_marathon());
    let out = execute_unit_command((7, UnitCommandKind::NextMino(Mino::o())), &mut u);
    assert!(out.is_empty());
    let out = execute_unit_command((7, UnitCommandKind::ApplyGravity(100)), &mut u);
    assert!(out.iter().all(|c| c.0 == 7));
}

#[test]
fn a_garbage_order_puts_the_gap_where_the_draw_says() {
    assert!(matches!(garbage_order(2, 3, 27, 10), (2, UnitCommandKind::AddLines(3, 7))));
    assert!(matches!(garbage_order(0, 1, 9, 10), (0, UnitCommandKind::AddLines(1, 9))));
    assert!(matches!(garbage_order(1, 4, usize::MAX, 7), (1, UnitCommandKind::AddLines(4, 1))));
}
