use tetris::mino::Mino;
use tetris::rng::{mino_of_kind, refill_bag, MinoRng};
use tetris::well::empty_well;

fn kind_of(m: &Mino) -> usize {
    let blocks: Vec<(i32, i32)> = m.blocks.iter().map(|b| (b.x, b.y)).collect();
    (0..7)
        .find(|&k| {
            let p = mino_of_kind(k);
            p.blocks.iter().map(|b| (b.x, b.y)).collect::<Vec<_>>() == blocks && p.blocks_data == m.blocks_data
        })
        .expect("a fresh piece")
}

#[test]
fn every_bag_holds_each_kind_once() {
    let mut rng = MinoRng::fair(7);
    for _ in 0..5 {
        let mut kinds: Vec<usize> = (0..7).map(|_| kind_of(&rng.generate())).collect();
        kinds.sort();
        assert_eq!(kinds, vec![0, 1, 2, 3, 4, 5, 6]);
    }
}

#[test]
fn pieces_of_each_kind() {
    let makers = [Mino::l, Mino::j, Mino::o, Mino::z, Mino::s, Mino::t, Mino::i];
    for (k, make) in makers.iter().enumerate() {
        let m = make();
        assert_eq!(kind_of(&m), k);
        assert_eq!(m.rotation, 0);
    }
}

#[test]
fn centred_pieces_sit_in_the_middle_of_the_top_row() {
    let w = empty_well(10, 20);
    let mut rng = MinoRng::fair(7);
    for _ in 0..14 {
        let m = rng.generate_centered(&w);
        let lo = m.blocks.iter().map(|b| b.x).min().unwrap();
        let hi = m.blocks.iter().map(|b| b.x).max().unwrap();
        assert_eq!(lo, (10 - (hi - lo + 1)) / 2);
        assert!(m.blocks.iter().all(|b| b.y >= 0 && b.y < 3));
    }
}

#[test]
fn a_filled_bag_is_handed_out_from_the_top() {
    let mut rng = MinoRng::Fair { rng: rand::SeedableRng::seed_from_u64(7), stack: vec![Mino::o(), Mino::t()] };
    assert_eq!(kind_of(&rng.generate()), 5);
    assert_eq!(kind_of(&rng.generate()), 2);
    let mut rest: Vec<usize> = (0..7).map(|_| kind_of(&rng.generate())).collect();
    rest.sort();
    assert_eq!(rest, vec![0, 1, 2, 3, 4, 5, 6]);
}

#[test]
fn a_bag_is_shuffled_by_its_draws() {
    let fresh: Vec<Mino> = (0..7).map(mino_of_kind).collect();
    let mut stack = fresh.clone();
    refill_bag(&mut stack, &[0, 0, 0, 0, 0, 0]);
    assert_eq!(stack.iter().map(kind_of).collect::<Vec<_>>(), vec![0, 1, 2, 3, 4, 5, 6]);
    let mut stack = fresh.clone();
    refill_bag(&mut stack, &[6, 0, 0, 0, 0, 0]);
    assert_eq!(stack.iter().map(kind_of).collect::<Vec<_>>(), vec![6, 1, 2, 3, 4, 5, 0]);
    let mut stack = fresh.clone();
    refill_bag(&mut stack, &[1, 1, 1, 1, 1, 1]);
    assert_eq!(stack.iter().map(kind_of).collect::<Vec<_>>(), vec![1, 2, 3, 4, 5, 6, 0]);
    let mut stack = fresh;
    refill_bag(&mut stack, &[3, 5, 0, 2, 1, 0]);
    assert_eq!(stack.iter().map(kind_of).collect::<Vec<_>>(), vec![3, 6, 2, 5, 0, 4, 1]);
}

#[test]
fn drawing_leaves_the_bag_alone() {
    let mut rng = MinoRng::Fair { rng: rand::SeedableRng::seed_from_u64(3), stack: vec![Mino::o(), Mino::t()] };
    let _ = rng.draw();
    let _ = rng.draw();
    assert_eq!(kind_of(&rng.generate()), 5);
    assert_eq!(kind_of(&rng.generate()), 2);
}

#[test]
fn one_seed_gives_one_sequence() {
    let mut a = MinoRng::fair(42);
    let mut b = MinoRng::fair(42);
    for _ in 0..21 {
        assert_eq!(kind_of(&a.generate()), kind_of(&b.generate()));
    }
    assert_eq!(MinoRng::fair(9).draw(), MinoRng::fair(9).draw());
}
