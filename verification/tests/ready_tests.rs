use std::collections::VecDeque;

use tetris::command::CommandWrapper;
use tetris::mino::Mino;
use tetris::mino_controller::MinoController;
use tetris::ready::{command_check, fresh_piece_check, in_well_check, mino_check, rng_check, unit_check, well_check};
use tetris::rng::MinoRng;
use tetris::unit::{Mode, Unit, UnitCommandKind};
use tetris::vec2::vec2;
use tetris::well::empty_well;

#[test]
fn units_stay_in_order_through_a_game() {
    let mut u = Unit::local(Mode::default_sprint(), MinoController::new(0, None), 7);
    assert!(unit_check(&u));
    let mut pending: VecDeque<UnitCommandKind> = VecDeque::new();
    pending.push_back(UnitCommandKind::NextMino(Mino::t()));
    for _ in 0..12 {
        pending.push_back(UnitCommandKind::RotateRight);
        pending.push_back(UnitCommandKind::MoveRight);
        pending.push_back(UnitCommandKind::ApplyGravity(30));
        pending.push_back(UnitCommandKind::Store);
    }
    let mut steps = 0;
    while let Some(k) = pending.pop_front() {
        steps += 1;
        if steps > 500 {
            break;
        }
        if !command_check(&u, &k) {
            continue;
        }
        let out = CommandWrapper::new((0usize, k)).execute(&mut u);
        assert!(unit_check(&u));
        for c in out {
            pending.push_back(c.inner.1);
        }
    }
}

#[test]
fn well_sizes_are_checked() {
    assert!(well_check(&empty_well(10, 20)));
    assert!(!well_check(&empty_well(0, 20)));
    assert!(well_check(&empty_well(1, 0)));
}

#[test]
fn pieces_are_checked() {
    assert!(fresh_piece_check(&Mino::z()));
    let mut m = Mino::z();
    m.right();
    assert!(!fresh_piece_check(&m));
    assert!(mino_check(&m));
    let mut far = Mino::o();
    far.translate(vec2::new(0x300_0000, 0));
    assert!(!mino_check(&far));
    let mut bent = Mino::t();
    bent.blocks[0] = bent.blocks[1];
    assert!(mino_check(&bent));
    let w = empty_well(10, 20);
    assert!(in_well_check(&Mino::i(), &w));
    let mut out = Mino::i();
    out.translate(vec2::new(7, 0));
    assert!(!in_well_check(&out, &w));
    let mut above = Mino::i();
    above.translate(vec2::new(0, -3));
    assert!(in_well_check(&above, &w));
}

#[test]
fn generators_are_checked() {
    assert!(rng_check(&MinoRng::fair(7)));
    let mut bad = Mino::s();
    bad.rotation = 3;
    let rng = MinoRng::Fair { rng: rand::SeedableRng::seed_from_u64(1), stack: vec![Mino::l(), bad] };
    assert!(!rng_check(&rng));
}

#[test]
fn commands_that_would_overflow_are_refused() {
    let u = Unit::network(Mode::Versus { lines_received: VecDeque::new(), lines_received_sum: usize::MAX, target_unit_id: 0 });
    assert!(!command_check(&u, &UnitCommandKind::SendLines(1)));
    assert!(command_check(&u, &UnitCommandKind::SendLines(0)));
    assert!(command_check(&u, &UnitCommandKind::AddLines(20, 3)));
    assert!(!command_check(&u, &UnitCommandKind::AddLines(21, 3)));
    let mut full = Unit::network(Mode::default_marathon());
    full.base.lines_cleared = u32::MAX;
    for x in 0..10 {
        tetris::well::well_put(&mut full.base.well, x, 19, Some(tetris::block::Data::gray()));
    }
    assert!(!command_check(&full, &UnitCommandKind::PreClearLines));
    full.base.lines_cleared = 0;
    assert!(command_check(&full, &UnitCommandKind::PreClearLines));
}
