use tetris::block::Data;
use tetris::mino::Mino;
use tetris::vec2::{vec2, vec2i};

fn blocks(m: &Mino) -> Vec<(i32, i32)> {
    m.blocks.iter().map(|b| (b.x, b.y)).collect()
}

#[test]
fn vec2_rotations() {
    let v: vec2i = vec2::new(2, 5);
    let r = v.rot90r();
    assert_eq!((r.x, r.y), (-5, 2));
    let l = v.rot90l();
    assert_eq!((l.x, l.y), (5, -2));
    let back = r.rot90l();
    assert_eq!((back.x, back.y), (2, 5));
}

#[test]
fn t_piece_turns_right_about_its_centre() {
    let mut m = Mino::t();
    assert_eq!(blocks(&m), vec![(0, 1), (1, 1), (2, 1), (1, 0)]);
    m.rotr();
    assert_eq!(m.rotation, 1);
    assert_eq!(blocks(&m), vec![(1, 0), (1, 1), (1, 2), (2, 1)]);
}

#[test]
fn i_piece_turns_about_a_half_cell_centre() {
    let mut m = Mino::i();
    m.rotr();
    assert_eq!(blocks(&m), vec![(2, -1), (2, 0), (2, 1), (2, 2)]);
    let mut n = Mino::i();
    n.rotl();
    assert_eq!(n.rotation, -1);
    assert_eq!(blocks(&n), vec![(1, 2), (1, 1), (1, 0), (1, -1)]);
}

#[test]
fn turning_right_then_left_restores_every_piece() {
    for make in [Mino::l, Mino::j, Mino::o, Mino::z, Mino::s, Mino::t, Mino::i] {
        let m0 = make();
        let mut m = m0;
        m.rotr();
        m.rotl();
        assert_eq!(blocks(&m), blocks(&m0));
        assert_eq!(m.rotation, 0);
        m.rotl();
        m.rotr();
        assert_eq!(blocks(&m), blocks(&m0));
    }
}

#[test]
fn four_turns_bring_a_piece_back() {
    let m0 = Mino::s();
    let mut m = m0;
    for _ in 0..4 {
        m.rotr();
    }
    assert_eq!(blocks(&m), blocks(&m0));
    assert_eq!(m.rotation, 4);
}

#[test]
fn translate_moves_blocks_and_centre() {
    let mut m = Mino::o();
    m.translate(vec2::new(3, 4));
    assert_eq!(blocks(&m), vec![(3, 4), (4, 4), (3, 5), (4, 5)]);
    assert_eq!((m.origin2.x, m.origin2.y), (1 + 6, 1 + 8));
    m.right();
    m.left();
    m.down();
    assert_eq!(blocks(&m), vec![(3, 5), (4, 5), (3, 6), (4, 6)]);
}

#[test]
fn shadow_keeps_blocks_and_changes_data() {
    let mut m = Mino::j();
    m.make_shadow();
    assert_eq!(blocks(&m), vec![(1, 0), (1, 1), (1, 2), (0, 2)]);
    for d in m.blocks_data.iter() {
        assert_eq!(*d, Data::shadow());
    }
}

#[test]
fn rect_and_size_of_pieces() {
    let m = Mino::i();
    let (lo, hi) = m.get_rect();
    assert_eq!((lo.x, lo.y, hi.x, hi.y), (0, 0, 3, 0));
    let s = m.get_size();
    assert_eq!((s.x, s.y), (4, 1));
    let l = Mino::l();
    let s = l.get_size();
    assert_eq!((s.x, s.y), (2, 3));
}

#[test]
fn piece_colours() {
    assert_eq!(Mino::i().blocks_data[0], Data::cyan());
    assert_eq!(Mino::l().blocks_data[0], Data::blue());
    assert_eq!(Mino::j().blocks_data[0], Data::orange());
    assert_eq!(Mino::o().blocks_data[0], Data::yellow());
    assert_eq!(Mino::z().blocks_data[0], Data::green());
    assert_eq!(Mino::s().blocks_data[0], Data::purple());
    assert_eq!(Mino::t().blocks_data[0], Data::pink());
}

#[test]
fn data_is_empty_only_for_the_empty_block() {
    assert!(Data::empty().is_empty());
    assert!(Data::new(0, 0).is_empty());
    assert!(!Data::new(1, 0).is_empty());
    assert!(!Data::gray().is_empty());
    assert_eq!(Data::new(3, 1), Data::sent_line());
    assert_eq!(Data::new(3, 2), Data::empty_line());
}
