use tetris::block::Data;
use tetris::game::{
    add_mino_to_well, center_mino, check_block_in_bounds, check_mino_well_collision, create_shadow_mino,
    may_down_mino, may_mutate_mino, mino_fits_in_well, reset_mino, try_clear_lines, try_down_mino,
    try_left_mino, try_mutate_mino, try_right_mino, try_rotl_mino, try_rotr_mino, MinoMove,
};
use tetris::mino::Mino;
use tetris::vec2::vec2;
use tetris::well::{empty_well, well_at, well_height, well_put, well_width, Well};

fn blocks(m: &Mino) -> Vec<(i32, i32)> {
    m.blocks.iter().map(|b| (b.x, b.y)).collect()
}

fn well() -> Well {
    empty_well(10, 20)
}

#[test]
fn empty_well_has_its_sizes_and_no_blocks() {
    let w = well();
    assert_eq!(well_width(&w), 10);
    assert_eq!(well_height(&w), 20);
    for x in 0..10 {
        for y in 0..20 {
            assert_eq!(well_at(&w, x, y), None);
        }
    }
}

#[test]
fn block_bounds_allow_anything_above_the_well() {
    let dim = vec2::new(10, 20);
    assert!(check_block_in_bounds(&vec2::new(0, 0), &dim));
    assert!(check_block_in_bounds(&vec2::new(9, -5), &dim));
    assert!(!check_block_in_bounds(&vec2::new(10, 0), &dim));
    assert!(!check_block_in_bounds(&vec2::new(-1, 0), &dim));
    assert!(!check_block_in_bounds(&vec2::new(0, 20), &dim));
}

#[test]
fn collision_with_walls_floor_and_blocks() {
    let mut w = well();
    let mut m = Mino::o();
    assert!(!check_mino_well_collision(&m, &w));
    m.translate(vec2::new(-1, 0));
    assert!(check_mino_well_collision(&m, &w));
    let mut m = Mino::o();
    m.translate(vec2::new(0, 19));
    assert!(check_mino_well_collision(&m, &w));
    let mut m = Mino::o();
    m.translate(vec2::new(0, -1));
    assert!(!check_mino_well_collision(&m, &w));
    well_put(&mut w, 1, 1, Some(Data::gray()));
    assert!(check_mino_well_collision(&Mino::o(), &w));
}

#[test]
fn moves_stop_at_walls_and_blocks() {
    let w = well();
    let mut m = Mino::o();
    assert!(!try_left_mino(&mut m, &w));
    assert_eq!(blocks(&m), blocks(&Mino::o()));
    assert!(try_right_mino(&mut m, &w));
    assert_eq!(blocks(&m), vec![(1, 0), (2, 0), (1, 1), (2, 1)]);
    assert!(try_down_mino(&mut m, &w));
    assert_eq!(blocks(&m), vec![(1, 1), (2, 1), (1, 2), (2, 2)]);

    let mut w = well();
    well_put(&mut w, 5, 19, Some(Data::gray()));
    let mut m = Mino::o();
    m.translate(vec2::new(4, 17));
    assert!(!may_down_mino(&m, &w));
    assert!(!try_down_mino(&mut m, &w));
    assert!(may_mutate_mino(&m, &w, MinoMove::Left));
    assert!(try_mutate_mino(&mut m, &w, MinoMove::Left));
    assert_eq!(blocks(&m), vec![(3, 17), (4, 17), (3, 18), (4, 18)]);
    assert!(may_down_mino(&m, &w));
}

#[test]
fn turning_near_the_top_is_allowed() {
    let w = well();
    let mut m = Mino::i();
    assert!(try_rotl_mino(&mut m, &w));
    assert_eq!(blocks(&m), vec![(1, 2), (1, 1), (1, 0), (1, -1)]);
    assert_eq!(m.rotation, -1);
}

#[test]
fn turning_against_a_wall_pushes_the_piece_back_in() {
    let w = well();
    let mut m = Mino::i();
    m.rotr();
    m.translate(vec2::new(-2, 0));
    assert_eq!(blocks(&m), vec![(0, -1), (0, 0), (0, 1), (0, 2)]);
    assert!(try_rotr_mino(&mut m, &w));
    assert_eq!(blocks(&m), vec![(3, 1), (2, 1), (1, 1), (0, 1)]);
    assert_eq!(m.rotation, 2);
}

#[test]
fn a_blocked_turn_leaves_the_piece() {
    let mut w = well();
    well_put(&mut w, 3, 7, Some(Data::gray()));
    let mut m = Mino::i();
    m.translate(vec2::new(2, 5));
    let before = blocks(&m);
    assert!(!may_mutate_mino(&m, &w, MinoMove::RotateLeft));
    assert!(!try_rotl_mino(&mut m, &w));
    assert_eq!(blocks(&m), before);
    assert_eq!(m.rotation, 0);
}

#[test]
fn shadow_lands_on_the_floor() {
    let w = well();
    let s = create_shadow_mino(&Mino::t(), &w);
    assert_eq!(blocks(&s), vec![(0, 19), (1, 19), (2, 19), (1, 18)]);
    for d in s.blocks_data.iter() {
        assert_eq!(*d, Data::shadow());
    }
}

#[test]
fn shadow_lands_on_blocks() {
    let mut w = well();
    well_put(&mut w, 1, 10, Some(Data::gray()));
    let s = create_shadow_mino(&Mino::t(), &w);
    assert_eq!(blocks(&s), vec![(0, 9), (1, 9), (2, 9), (1, 8)]);
}

#[test]
fn pieces_fit_only_inside_the_well_on_empty_cells() {
    let mut w = well();
    let mut m = Mino::o();
    assert!(mino_fits_in_well(&m, &w));
    m.translate(vec2::new(0, -1));
    assert!(!mino_fits_in_well(&m, &w));
    well_put(&mut w, 0, 0, Some(Data::gray()));
    assert!(!mino_fits_in_well(&Mino::o(), &w));
}

#[test]
fn adding_a_piece_fills_its_cells() {
    let mut w = well();
    let mut m = Mino::l();
    m.translate(vec2::new(4, 17));
    add_mino_to_well(&m, &mut w);
    assert_eq!(well_at(&w, 4, 17), Some(Data::blue()));
    assert_eq!(well_at(&w, 4, 18), Some(Data::blue()));
    assert_eq!(well_at(&w, 4, 19), Some(Data::blue()));
    assert_eq!(well_at(&w, 5, 19), Some(Data::blue()));
    assert_eq!(well_at(&w, 5, 18), None);
}

#[test]
fn clearing_a_full_row_drops_the_rows_above() {
    let mut w = well();
    for x in 0..10 {
        well_put(&mut w, x, 19, Some(Data::gray()));
    }
    well_put(&mut w, 3, 18, Some(Data::cyan()));
    well_put(&mut w, 7, 10, Some(Data::pink()));
    try_clear_lines(&mut w);
    for x in 0..10 {
        let expected = if x == 3 { Some(Data::cyan()) } else { None };
        assert_eq!(well_at(&w, x, 19), expected);
        assert_eq!(well_at(&w, x, 18), None);
    }
    assert_eq!(well_at(&w, 7, 11), Some(Data::pink()));
    assert_eq!(well_at(&w, 7, 10), None);
}

#[test]
fn clearing_two_separate_rows() {
    let mut w = well();
    for x in 0..10 {
        well_put(&mut w, x, 19, Some(Data::gray()));
        well_put(&mut w, x, 17, Some(Data::gray()));
    }
    well_put(&mut w, 0, 18, Some(Data::cyan()));
    well_put(&mut w, 9, 16, Some(Data::pink()));
    try_clear_lines(&mut w);
    assert_eq!(well_at(&w, 0, 19), Some(Data::cyan()));
    assert_eq!(well_at(&w, 9, 18), Some(Data::pink()));
    for x in 1..10 {
        assert_eq!(well_at(&w, x, 19), None);
    }
    for x in 0..10 {
        assert_eq!(well_at(&w, x, 17), None);
    }
}

#[test]
fn clearing_without_full_rows_changes_nothing() {
    let mut w = well();
    well_put(&mut w, 2, 19, Some(Data::gray()));
    try_clear_lines(&mut w);
    assert_eq!(well_at(&w, 2, 19), Some(Data::gray()));
    assert_eq!(well_at(&w, 3, 19), None);
}

#[test]
fn a_full_top_row_is_kept_where_the_scan_left_it() {
    let mut w = empty_well(2, 3);
    for x in 0..2 {
        well_put(&mut w, x, 0, Some(Data::cyan()));
        well_put(&mut w, x, 2, Some(Data::gray()));
    }
    try_clear_lines(&mut w);
    assert_eq!(well_at(&w, 0, 1), Some(Data::cyan()));
    assert_eq!(well_at(&w, 1, 1), Some(Data::cyan()));
    assert_eq!(well_at(&w, 0, 2), None);
    assert_eq!(well_at(&w, 0, 0), None);
}

#[test]
fn centring_puts_the_piece_in_the_middle() {
    let w = well();
    let mut m = Mino::i();
    center_mino(&mut m, &w);
    assert_eq!(blocks(&m), vec![(3, 0), (4, 0), (5, 0), (6, 0)]);
    let mut t = Mino::t();
    center_mino(&mut t, &w);
    assert_eq!(blocks(&t), vec![(3, 1), (4, 1), (5, 1), (4, 0)]);
}

#[test]
fn reset_turns_back_and_moves_to_the_corner() {
    let mut m = Mino::t();
    m.rotr();
    m.rotr();
    m.translate(vec2::new(4, 5));
    reset_mino(&mut m);
    assert_eq!(blocks(&m), blocks(&Mino::t()));
    assert_eq!(m.rotation, 0);

    let mut n = Mino::t();
    n.rotl();
    reset_mino(&mut n);
    assert_eq!(blocks(&n), blocks(&Mino::t()));
    assert_eq!(n.rotation, -4);
}

#[test]
fn blocks_on_one_cell_leave_the_later_blocks_data() {
    let mut m = Mino::t();
    m.blocks[0] = m.blocks[1];
    m.blocks_data[0] = Data::gray();
    m.blocks_data[1] = Data::blue();
    let mut w = well();
    add_mino_to_well(&m, &mut w);
    assert_eq!(well_at(&w, m.blocks[1].x as usize, m.blocks[1].y as usize), Some(Data::blue()));
    let mut m = Mino::t();
    m.blocks[1] = m.blocks[0];
    m.blocks_data[0] = Data::blue();
    m.blocks_data[1] = Data::gray();
    let mut w = well();
    add_mino_to_well(&m, &mut w);
    assert_eq!(well_at(&w, m.blocks[0].x as usize, m.blocks[0].y as usize), Some(Data::gray()));
}
