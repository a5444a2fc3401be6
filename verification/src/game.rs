use vstd::prelude::*;

use crate::block::{data_at, Data};
use crate::mino::{centre_in_range, lemma_centred_bounds, lemma_centred_turns, lemma_moved_wf, near_centre, turn_left_then_right_restores, Mino};
use crate::vec2::{fits_i32, trunc_div, vec2, vec2i};
use crate::well::{well_put, well_shape, cell, height, in_bounds, well_at, well_height, well_ok, well_width, width, Well};

verus! {

/// Block `b` of a piece hits something: it is at or below the top edge and
/// either outside the well or on a filled cell. Blocks above the well never collide.
pub open spec fn block_collides(b: vec2i, w: Well) -> bool {
    &&& b.y >= 0
    &&& !(0 <= b.x < width(w) && b.y < height(w)) || cell(w, b.x as int, b.y as int) is Some
}

/// Some block of the piece collides.
pub open spec fn collides(m: Mino, w: Well) -> bool {
    exists|i: int| 0 <= i < 4 && #[trigger] block_collides(m.blocks[i], w)
}

/// Every block that is not above the well lies inside it.
pub open spec fn in_well_bounds(m: Mino, w: Well) -> bool {
    forall|i: int| 0 <= i < 4 ==> (#[trigger] m.blocks[i]).y < 0 || in_bounds(w, m.blocks[i].x as int, m.blocks[i].y as int)
}

/// A move that a player can make with the falling piece.
#[derive(Clone, Copy, Debug, PartialEq, Eq, Structural)]
pub enum MinoMove {
    Left,
    Right,
    Down,
    RotateLeft,
    RotateRight,
}

pub open spec fn min_int(a: int, b: int) -> int {
    if a <= b { a } else { b }
}

/// First shift of the horizontal correction after a turn: right by as much as
/// the piece sticks out on the left.
pub open spec fn shift_in_left(m: Mino) -> int {
    -min_int(0, m.lo_x())
}

/// Second shift: left by as much as the piece (as it was before the first
/// shift) sticks out on the right of a well `width` wide.
pub open spec fn shift_in_right(m: Mino, width: int) -> int {
    min_int(0, width - m.hi_x() - 1)
}

/// The piece pushed back between the side walls after a turn.
pub open spec fn into_bounds(m: Mino, w: Well) -> Mino {
    m.moved(shift_in_left(m), 0).moved(shift_in_right(m, width(w)), 0)
}

/// The machine arithmetic of the correction stays within `i32`.
pub open spec fn into_bounds_fits(m: Mino, w: Well) -> bool {
    &&& m.lo_x() > i32::MIN
    &&& fits_i32(width(w) - m.hi_x(), width(w) - m.hi_x() - 1)
    &&& m.translate_fits(vec2 { x: shift_in_left(m) as i32, y: 0 })
    &&& m.moved(shift_in_left(m), 0).translate_fits(vec2 { x: shift_in_right(m, width(w)) as i32, y: 0 })
}

/// Pushing a turned piece back between the side walls: when the piece is
/// narrower than the well, every block ends up inside the side walls at its
/// own row; a piece already inside is left alone, and one sticking out is
/// moved back by exactly as much as it sticks out (right on the left side,
/// left on the right side). The walls then never refuse the turn: the moved
/// piece collides exactly when a block is below the well or on a filled cell.
pub proof fn pushed_back_between_the_walls(m: Mino, w: Well)
    requires
        into_bounds_fits(m, w),
        m.hi_x() - m.lo_x() < width(w),
    ensures
        forall|i: int| 0 <= i < 4 ==> 0 <= (#[trigger] into_bounds(m, w).blocks[i]).x < width(w)
            && into_bounds(m, w).blocks[i].y == m.blocks[i].y,
        (0 <= m.lo_x() && m.hi_x() < width(w)) ==> into_bounds(m, w) == m,
        m.lo_x() < 0 ==> into_bounds(m, w) == m.moved(-m.lo_x(), 0),
        m.hi_x() >= width(w) ==> into_bounds(m, w) == m.moved(width(w) - 1 - m.hi_x(), 0),
        !collides(into_bounds(m, w), w) <==> forall|i: int| 0 <= i < 4 ==> (#[trigger] into_bounds(m, w).blocks[i]).y < 0
            || (into_bounds(m, w).blocks[i].y < height(w) && cell(w, into_bounds(m, w).blocks[i].x as int, into_bounds(m, w).blocks[i].y as int) is None),
{
    let lo = m.lo_x();
    let hi = m.hi_x();
    let wd = width(w);
    let r = into_bounds(m, w);
    assert forall|i: int| 0 <= i < 4 implies lo <= #[trigger] m.blocks[i].x <= hi by {
        if i == 0 {
        } else if i == 1 {
        } else if i == 2 {
        } else {
        }
    }
    let sl = shift_in_left(m);
    let sr = shift_in_right(m, wd);
    let m1 = m.moved(sl, 0);
    if lo < 0 {
        assert(sl == -lo);
        assert(sr == 0);
        crate::mino::lemma_moved_zero(m1);
        assert(r == m1);
    } else if hi >= wd {
        assert(sl == 0);
        assert(sr == wd - 1 - hi);
        crate::mino::lemma_moved_zero(m);
        assert(m1 == m);
    } else {
        assert(sl == 0 && sr == 0);
        crate::mino::lemma_moved_zero(m);
        assert(m1 == m);
        assert(r == m);
    }
    assert forall|i: int| 0 <= i < 4 implies 0 <= (#[trigger] r.blocks[i]).x < wd && r.blocks[i].y == m.blocks[i].y by {
        assert(lo <= m.blocks[i].x <= hi);
        assert(m.translate_fits(vec2 { x: sl as i32, y: 0 }));
        assert(fits_i32(m.blocks[i].x + sl, m.blocks[i].y as int));
        assert(m1.blocks[i].x == m.blocks[i].x + sl);
        assert(m1.translate_fits(vec2 { x: sr as i32, y: 0 }));
        assert(fits_i32(m1.blocks[i].x + sr, m1.blocks[i].y as int));
        assert(r.blocks[i].x == m.blocks[i].x + sl + sr);
    }
    assert(!collides(r, w) <==> forall|i: int| 0 <= i < 4 ==> (#[trigger] r.blocks[i]).y < 0
        || (r.blocks[i].y < height(w) && cell(w, r.blocks[i].x as int, r.blocks[i].y as int) is None)) by {
        if !collides(r, w) {
            assert forall|i: int| 0 <= i < 4 implies (#[trigger] r.blocks[i]).y < 0
                || (r.blocks[i].y < height(w) && cell(w, r.blocks[i].x as int, r.blocks[i].y as int) is None) by {
                assert(!block_collides(r.blocks[i], w));
            }
        }
        if forall|i: int| 0 <= i < 4 ==> (#[trigger] r.blocks[i]).y < 0
            || (r.blocks[i].y < height(w) && cell(w, r.blocks[i].x as int, r.blocks[i].y as int) is None) {
            assert forall|i: int| 0 <= i < 4 implies !block_collides(#[trigger] r.blocks[i], w) by {
                assert(0 <= r.blocks[i].x < wd);
            }
        }
    }
}

/// The piece after a move, collisions aside.
pub open spec fn apply_move(m: Mino, w: Well, mv: MinoMove) -> Mino {
    match mv {
        MinoMove::Left => m.moved(-1, 0),
        MinoMove::Right => m.moved(1, 0),
        MinoMove::Down => m.moved(0, 1),
        MinoMove::RotateLeft => into_bounds(m.turned_l(), w),
        MinoMove::RotateRight => into_bounds(m.turned_r(), w),
    }
}

/// Making the move does not overflow the machine integers.
pub open spec fn move_fits(m: Mino, w: Well, mv: MinoMove) -> bool {
    match mv {
        MinoMove::Left => m.translate_fits(vec2 { x: -1i32, y: 0i32 }),
        MinoMove::Right => m.translate_fits(vec2 { x: 1i32, y: 0i32 }),
        MinoMove::Down => m.translate_fits(vec2 { x: 0i32, y: 1i32 }),
        MinoMove::RotateLeft => m.rotation > i32::MIN && m.rotl_fits() && into_bounds_fits(m.turned_l(), w),
        MinoMove::RotateRight => m.rotation < i32::MAX && m.rotr_fits() && into_bounds_fits(m.turned_r(), w),
    }
}

/// True when `block` lies left of `dim.x`, right of zero and above `dim.y`.
pub fn check_block_in_bounds(block: &vec2i, dim: &vec2i) -> (r: bool)
    ensures
        r == (block.x >= 0 && block.x < dim.x && block.y < dim.y),
{
    block.x >= 0 && block.x < dim.x && block.y < dim.y
}

/// True when some block of the piece collides with the well.
pub fn check_mino_well_collision(mino: &Mino, well: &Well) -> (r: bool)
    requires
        well_ok(*well),
    ensures
        r == collides(*mino, *well),
{
    let dim = vec2i::from_usize_pair((well_width(well), well_height(well)));
    let mut i: usize = 0;
    while i < 4
        invariant
            0 <= i <= 4,
            well_ok(*well),
            dim.x == width(*well),
            dim.y == height(*well),
            forall|j: int| 0 <= j < i ==> !block_collides(#[trigger] mino.blocks[j], *well),
        decreases 4 - i,
    {
        let block = mino.blocks[i];
        if block.y >= 0 {
            if !check_block_in_bounds(&block, &dim) {
                assert(block_collides(mino.blocks[i as int], *well));
                return true;
            }
            if well_at(well, block.x as usize, block.y as usize).is_some() {
                assert(block_collides(mino.blocks[i as int], *well));
                return true;
            }
        }
        i = i + 1;
    }
    false
}

/// Applies a move to the piece, whether or not it then collides.
fn apply_mino_move(mino: &mut Mino, well: &Well, mv: MinoMove)
    requires
        well_ok(*well),
        move_fits(*old(mino), *well, mv),
    ensures
        *final(mino) == apply_move(*old(mino), *well, mv),
{
    match mv {
        MinoMove::Left => mino.left(),
        MinoMove::Right => mino.right(),
        MinoMove::Down => mino.down(),
        MinoMove::RotateLeft => {
            mino.rotl();
            move_mino_into_horizontal_bounds(mino, well);
        },
        MinoMove::RotateRight => {
            mino.rotr();
            move_mino_into_horizontal_bounds(mino, well);
        },
    }
}

/// Pushes the piece back between the side walls: right by what sticks out on
/// the left, then left by what stuck out on the right before that.
fn move_mino_into_horizontal_bounds(mino: &mut Mino, well: &Well)
    requires
        well_ok(*well),
        into_bounds_fits(*old(mino), *well),
    ensures
        *final(mino) == into_bounds(*old(mino), *well),
{
    let (lo, hi) = mino.get_rect();
    let w = well_width(well) as i32;
    let a = if 0 <= lo.x { 0 } else { lo.x };
    mino.translate(vec2 { x: -a, y: 0 });
    let d = w - hi.x - 1;
    let b = if 0 <= d { 0 } else { d };
    mino.translate(vec2 { x: b, y: 0 });
}

/// True when the piece, after the move, would not collide.
pub fn may_mutate_mino(mino: &Mino, well: &Well, mv: MinoMove) -> (r: bool)
    requires
        well_ok(*well),
        move_fits(*mino, *well, mv),
    ensures
        r == !collides(apply_move(*mino, *well, mv), *well),
{
    let mut mutated_mino = *mino;
    apply_mino_move(&mut mutated_mino, well, mv);
    !check_mino_well_collision(&mutated_mino, well)
}

/// True when the piece could move down one row.
pub fn may_down_mino(mino: &Mino, well: &Well) -> (r: bool)
    requires
        well_ok(*well),
        mino.translate_fits(vec2 { x: 0i32, y: 1i32 }),
    ensures
        r == !collides(mino.moved(0, 1), *well),
{
    may_mutate_mino(mino, well, MinoMove::Down)
}

/// Makes the move when the moved piece would not collide; says whether it did.
pub fn try_mutate_mino(mino: &mut Mino, well: &Well, mv: MinoMove) -> (r: bool)
    requires
        well_ok(*well),
        move_fits(*old(mino), *well, mv),
    ensures
        r == !collides(apply_move(*old(mino), *well, mv), *well),
        *final(mino) == if r { apply_move(*old(mino), *well, mv) } else { *old(mino) },
{
    let mut mutated_mino = *mino;
    apply_mino_move(&mut mutated_mino, well, mv);
    if !check_mino_well_collision(&mutated_mino, well) {
        *mino = mutated_mino;
        return true;
    }
    false
}

pub fn try_left_mino(mino: &mut Mino, well: &Well) -> (r: bool)
    requires
        well_ok(*well),
        move_fits(*old(mino), *well, MinoMove::Left),
    ensures
        r == !collides(old(mino).moved(-1, 0), *well),
        *final(mino) == if r { old(mino).moved(-1, 0) } else { *old(mino) },
{
    try_mutate_mino(mino, well, MinoMove::Left)
}

pub fn try_right_mino(mino: &mut Mino, well: &Well) -> (r: bool)
    requires
        well_ok(*well),
        move_fits(*old(mino), *well, MinoMove::Right),
    ensures
        r == !collides(old(mino).moved(1, 0), *well),
        *final(mino) == if r { old(mino).moved(1, 0) } else { *old(mino) },
{
    try_mutate_mino(mino, well, MinoMove::Right)
}

pub fn try_down_mino(mino: &mut Mino, well: &Well) -> (r: bool)
    requires
        well_ok(*well),
        move_fits(*old(mino), *well, MinoMove::Down),
    ensures
        r == !collides(old(mino).moved(0, 1), *well),
        *final(mino) == if r { old(mino).moved(0, 1) } else { *old(mino) },
{
    try_mutate_mino(mino, well, MinoMove::Down)
}

pub fn try_rotl_mino(mino: &mut Mino, well: &Well) -> (r: bool)
    requires
        well_ok(*well),
        move_fits(*old(mino), *well, MinoMove::RotateLeft),
    ensures
        r == !collides(into_bounds(old(mino).turned_l(), *well), *well),
        *final(mino) == if r { into_bounds(old(mino).turned_l(), *well) } else { *old(mino) },
{
    try_mutate_mino(mino, well, MinoMove::RotateLeft)
}

pub fn try_rotr_mino(mino: &mut Mino, well: &Well) -> (r: bool)
    requires
        well_ok(*well),
        move_fits(*old(mino), *well, MinoMove::RotateRight),
    ensures
        r == !collides(into_bounds(old(mino).turned_r(), *well), *well),
        *final(mino) == if r { into_bounds(old(mino).turned_r(), *well) } else { *old(mino) },
{
    try_mutate_mino(mino, well, MinoMove::RotateRight)
}

} // verus!

verus! {

/// How far from the well's corner a piece's blocks may lie (and twice that
/// for its doubled centre) for dropping it to stay within `i32`.
pub open spec fn mino_in_box(m: Mino) -> bool {
    &&& forall|i: int| 0 <= i < 4 ==> -0x400_0000 <= (#[trigger] m.blocks[i]).x <= 0x400_0000 && -0x400_0000 <= m.blocks[i].y <= 0x400_0000
    &&& -2 * 0x400_0000 <= m.origin2.x <= 2 * 0x400_0000
    &&& -2 * 0x400_0000 <= m.origin2.y <= 2 * 0x400_0000
}


/// The piece with every block drawn as a shadow block.
pub open spec fn shadow_of(m: Mino) -> Mino {
    Mino {
        origin2: m.origin2,
        rotation: m.rotation,
        blocks: m.blocks,
        blocks_data: [data_at(1, 0), data_at(1, 0), data_at(1, 0), data_at(1, 0)],
    }
}

/// Moving a piece down `k` rows keeps its turn counter, colours and blocks
/// other than their heights; starting from a piece in the box, a moved piece
/// whose blocks are inside or above the well can still move one row down.
pub proof fn lemma_dropped(m: Mino, w: Well, k: int)
    requires
        mino_in_box(m),
        well_ok(w),
        0 <= k <= 4 * 0x400_0000,
        k == 0 || !collides(m.moved(0, k), w),
    ensures
        forall|i: int| 0 <= i < 4 ==> (#[trigger] m.moved(0, k).blocks[i]).y == m.blocks[i].y + k
            && m.moved(0, k).blocks[i].x == m.blocks[i].x,
        m.moved(0, k).origin2.y == m.origin2.y + 2 * k,
        m.moved(0, k).origin2.x == m.origin2.x,
        m.moved(0, k).translate_fits(vec2 { x: 0i32, y: 1i32 }),
        m.moved(0, k).moved(0, 1) == m.moved(0, k + 1),
        k > 0 ==> k <= 2 * 0x400_0000,
{
    broadcast use vstd::array::group_array_axioms;
    let d = m.moved(0, k);
    if k > 0 {
        assert(!block_collides(d.blocks[0], w));
    }
    assert(d.moved(0, 1).blocks =~= m.moved(0, k + 1).blocks);
}

/// The shadow of the piece: the piece drawn in shadow blocks and dropped as
/// far as it goes without colliding.
pub fn create_shadow_mino(mino: &Mino, well: &Well) -> (r: Mino)
    requires
        well_ok(*well),
        mino_in_box(*mino),
    ensures
        exists|k: int| #![trigger mino.moved(0, k)]
            0 <= k && r == shadow_of(mino.moved(0, k)) && (forall|j: int|
                1 <= j <= k ==> !collides(#[trigger] mino.moved(0, j), *well)) && collides(
                mino.moved(0, k + 1),
                *well,
            ),
{
    broadcast use vstd::array::group_array_axioms;
    let mut shadow_mino = *mino;
    shadow_mino.make_shadow();
    assert(shadow_mino.blocks_data =~= shadow_of(*mino).blocks_data);
    assert(mino.moved(0, 0).blocks =~= mino.blocks);
    assert(mino.moved(0, 0) == *mino);
    assert(shadow_mino == shadow_of(*mino));
    let ghost mut k: int = 0;
    loop
        invariant
            well_ok(*well),
            mino_in_box(*mino),
            0 <= k <= 2 * 0x400_0000,
            shadow_mino == shadow_of(mino.moved(0, k)),
            forall|j: int| 1 <= j <= k ==> !collides(#[trigger] mino.moved(0, j), *well),
        ensures
            shadow_mino == shadow_of(mino.moved(0, k)),
            forall|j: int| 1 <= j <= k ==> !collides(#[trigger] mino.moved(0, j), *well),
            collides(mino.moved(0, k + 1), *well),
        decreases 2 * 0x400_0000 - k,
    {
        proof {
            lemma_dropped(*mino, *well, k);
        }
        let ghost before = shadow_mino;
        proof {
            assert(before.moved(0, 1).blocks == mino.moved(0, k + 1).blocks);
            assert(collides(before.moved(0, 1), *well) == collides(mino.moved(0, k + 1), *well));
        }
        if !try_down_mino(&mut shadow_mino, well) {
            break;
        }
        proof {
            assert(before.moved(0, 1).blocks == mino.moved(0, k).moved(0, 1).blocks);
            assert(shadow_mino == shadow_of(mino.moved(0, k + 1)));
            k = k + 1;
            lemma_dropped(*mino, *well, k);
        }
    }
    shadow_mino
}

/// Block `b` is inside the well, not above it, on an empty cell.
pub open spec fn block_fits(b: vec2i, w: Well) -> bool {
    &&& b.y >= 0
    &&& in_bounds(w, b.x as int, b.y as int)
    &&& cell(w, b.x as int, b.y as int) is None
}

/// Every block of the piece is inside the well on an empty cell.
pub open spec fn mino_fits(m: Mino, w: Well) -> bool {
    forall|i: int| 0 <= i < 4 ==> block_fits(#[trigger] m.blocks[i], w)
}

/// Scanning the blocks in order never indexes outside the well: a block
/// that is reached and is not above the well lies inside it.
pub open spec fn fits_scan_safe(m: Mino, w: Well) -> bool {
    forall|i: int|
        0 <= i < 4 && (forall|j: int| 0 <= j < i ==> block_fits(#[trigger] m.blocks[j], w)) && (
        #[trigger] m.blocks[i]).y >= 0 ==> in_bounds(w, m.blocks[i].x as int, m.blocks[i].y as int)
}

/// True when every block of the piece is inside the well on an empty cell.
pub fn mino_fits_in_well(mino: &Mino, well: &Well) -> (r: bool)
    requires
        fits_scan_safe(*mino, *well),
    ensures
        r == mino_fits(*mino, *well),
{
    let mut i: usize = 0;
    while i < 4
        invariant
            0 <= i <= 4,
            fits_scan_safe(*mino, *well),
            forall|j: int| 0 <= j < i ==> block_fits(#[trigger] mino.blocks[j], *well),
        decreases 4 - i,
    {
        let block = mino.blocks[i];
        if block.y < 0 {
            return false;
        }
        if well_at(well, block.x as usize, block.y as usize).is_some() {
            return false;
        }
        i = i + 1;
    }
    true
}

/// The cell at `(x, y)` after the piece is laid into the well, its blocks in
/// order: where two blocks share a cell, the later one's data stays.
pub open spec fn placed_cell(w: Well, m: Mino, x: int, y: int) -> Option<Data> {
    if m.blocks[3].x == x && m.blocks[3].y == y {
        Some(m.blocks_data[3])
    } else if m.blocks[2].x == x && m.blocks[2].y == y {
        Some(m.blocks_data[2])
    } else if m.blocks[1].x == x && m.blocks[1].y == y {
        Some(m.blocks_data[1])
    } else if m.blocks[0].x == x && m.blocks[0].y == y {
        Some(m.blocks_data[0])
    } else {
        cell(w, x, y)
    }
}

/// The cell at `(x, y)` after the first `n` blocks of the piece are laid into the well.
pub open spec fn placed_upto(w: Well, m: Mino, n: int, x: int, y: int) -> Option<Data>
    decreases n,
{
    if n <= 0 {
        cell(w, x, y)
    } else if m.blocks[n - 1].x == x && m.blocks[n - 1].y == y {
        Some(m.blocks_data[n - 1])
    } else {
        placed_upto(w, m, n - 1, x, y)
    }
}

/// Lays the piece into the well: each block's cell takes the block's data.
pub fn add_mino_to_well(mino: &Mino, well: &mut Well)
    requires
        mino_fits(*mino, *old(well)),
    ensures
        well_shape(*final(well)) == well_shape(*old(well)),
        forall|x: int, y: int| #[trigger] cell(*final(well), x, y) == placed_cell(*old(well), *mino, x, y),
{
    let ghost w0 = *well;
    let mut i: usize = 0;
    while i < 4
        invariant
            0 <= i <= 4,
            well_shape(*well) == well_shape(w0),
            mino_fits(*mino, w0),
            forall|x: int, y: int| #[trigger] cell(*well, x, y) == placed_upto(w0, *mino, i as int, x, y),
        decreases 4 - i,
    {
        let block = mino.blocks[i];
        assert(block_fits(mino.blocks[i as int], w0));
        assert(block == mino.blocks[i as int]);
        assert(in_bounds(*well, block.x as int, block.y as int));
        well_put(well, block.x as usize, block.y as usize, Some(mino.blocks_data[i]));
        i = i + 1;
    }
    assert forall|x: int, y: int| #[trigger] cell(*well, x, y) == placed_cell(w0, *mino, x, y) by {
        reveal_with_fuel(placed_upto, 5);
        assert(cell(*well, x, y) == placed_upto(w0, *mino, 4, x, y));
    }
}

} // verus!

verus! {

/// Every cell of row `y` is filled.
pub open spec fn row_full(w: Well, y: int) -> bool {
    forall|x: int| 0 <= x < width(w) ==> (#[trigger] cell(w, x, y)) is Some
}

/// The rows from `y` down to the bottom that are not full, top to bottom.
pub open spec fn nonfull_from(w: Well, y: int) -> Seq<int>
    decreases height(w) - y,
{
    if y >= height(w) {
        seq![]
    } else if row_full(w, y) {
        nonfull_from(w, y + 1)
    } else {
        seq![y] + nonfull_from(w, y + 1)
    }
}

/// How many rows from `y` down to the bottom are full.
pub open spec fn full_count_from(w: Well, y: int) -> int
    decreases height(w) - y,
{
    if y >= height(w) {
        0
    } else {
        (if row_full(w, y) { 1int } else { 0int }) + full_count_from(w, y + 1)
    }
}

/// The rows of the part of the well from row `p` down that survive a line
/// clear: row `p` itself, whether full or not, then the rows below it that
/// are not full.
pub open spec fn kept_from(w: Well, p: int) -> Seq<int> {
    if p >= height(w) {
        seq![]
    } else {
        seq![p] + nonfull_from(w, p + 1)
    }
}

/// The cell at `(x, y)` after clearing lines: the surviving rows (the top
/// row, and every row that is not full) keep their order and settle at the
/// bottom; the rows above them are empty.
pub open spec fn cleared_cell(w: Well, x: int, y: int) -> Option<Data> {
    let k = kept_from(w, 0);
    let top = height(w) - k.len();
    if y < top {
        None
    } else {
        cell(w, x, k[y - top])
    }
}

proof fn lemma_count_rows(w: Well, y: int)
    requires
        0 <= y <= height(w),
    ensures
        nonfull_from(w, y).len() + full_count_from(w, y) == height(w) - y,
        0 <= full_count_from(w, y) <= height(w) - y,
        forall|i: int| 0 <= i < nonfull_from(w, y).len() ==> y <= #[trigger] nonfull_from(w, y)[i] < height(w),
    decreases height(w) - y,
{
    if y < height(w) {
        lemma_count_rows(w, y + 1);
        let rest = nonfull_from(w, y + 1);
        if !row_full(w, y) {
            assert forall|i: int| 0 <= i < nonfull_from(w, y).len() implies y <= #[trigger] nonfull_from(w, y)[i] < height(w) by {
                if i > 0 {
                    assert(nonfull_from(w, y)[i] == rest[i - 1]);
                }
            }
        }
    }
}

/// Without full rows, the rows from `y` down all survive, in order.
proof fn lemma_nonfull_all(w: Well, y: int)
    requires
        0 <= y <= height(w),
        forall|t: int| y <= t < height(w) ==> !#[trigger] row_full(w, t),
    ensures
        nonfull_from(w, y) == Seq::new((height(w) - y) as nat, |i: int| y + i),
    decreases height(w) - y,
{
    if y < height(w) {
        lemma_nonfull_all(w, y + 1);
        assert(!row_full(w, y));
        assert(nonfull_from(w, y) =~= Seq::new((height(w) - y) as nat, |i: int| y + i));
    }
}

/// A line clear leaves as many empty rows at the top as there were full
/// rows below the top row, and a well without full rows is left as it is.
pub proof fn clearing_removes_exactly_the_full_rows(w: Well)
    requires
        height(w) >= 1,
    ensures
        forall|x: int, y: int|
            in_bounds(w, x, y) && y < full_count_from(w, 1) ==> #[trigger] cleared_cell(w, x, y) is None,
        (forall|t: int| 0 <= t < height(w) ==> !#[trigger] row_full(w, t)) ==> forall|x: int, y: int|
            in_bounds(w, x, y) ==> #[trigger] cleared_cell(w, x, y) == cell(w, x, y),
{
    lemma_count_rows(w, 1);
    assert(kept_from(w, 0).len() == height(w) - full_count_from(w, 1));
    if forall|t: int| 0 <= t < height(w) ==> !#[trigger] row_full(w, t) {
        lemma_nonfull_all(w, 1);
        assert(kept_from(w, 0) =~= Seq::new(height(w) as nat, |i: int| i));
    }
}

/// The number of filled cells among the first `n` cells of row `y`.
pub open spec fn filled_in_row(w: Well, y: int, n: int) -> int
    decreases n,
{
    if n <= 0 {
        0
    } else {
        filled_in_row(w, y, n - 1) + if cell(w, n - 1, y) is Some { 1int } else { 0int }
    }
}

/// The filled count of a row prefix is between zero and its length, and
/// equals its length exactly when every cell of the prefix is filled.
pub proof fn lemma_filled_in_row(w: Well, y: int, n: int)
    requires
        0 <= n,
    ensures
        0 <= filled_in_row(w, y, n) <= n,
        filled_in_row(w, y, n) == n <==> forall|x: int| 0 <= x < n ==> (#[trigger] cell(w, x, y)) is Some,
    decreases n,
{
    if n > 0 {
        lemma_filled_in_row(w, y, n - 1);
        if filled_in_row(w, y, n) == n {
            assert forall|x: int| 0 <= x < n implies (#[trigger] cell(w, x, y)) is Some by {
                if x < n - 1 {
                } else {
                }
            }
        }
    }
}

/// The state of the well after rows `p` to the bottom have been handled
/// by the line clear, starting from `w0`.
pub open spec fn clear_state(w0: Well, w: Well, p: int) -> bool {
    let d = full_count_from(w0, p + 1);
    let k = kept_from(w0, p);
    &&& well_shape(w) == well_shape(w0)
    &&& forall|x: int, t: int| 0 <= x < width(w0) && 0 <= t < p ==> #[trigger] cell(w, x, t) == cell(w0, x, t)
    &&& p < height(w0) ==> forall|x: int, t: int|
        0 <= x < width(w0) && p <= t < p + d ==> (#[trigger] cell(w, x, t)) is None
    &&& p < height(w0) ==> forall|x: int, t: int|
        0 <= x < width(w0) && p + d <= t < height(w0) ==> #[trigger] cell(w, x, t) == cell(w0, x, k[t - p - d])
}

/// Removes the full rows: the rows that survive (the top row, and every row
/// that is not full) move down, in order, to the bottom of the well, and the
/// rows above them become empty. A full top row is not removed.
pub fn try_clear_lines(well: &mut Well)
    ensures
        well_shape(*final(well)) == well_shape(*old(well)),
        forall|x: int, y: int| in_bounds(*old(well), x, y) ==> #[trigger] cell(*final(well), x, y) == cleared_cell(*old(well), x, y),
{
    let ghost w0 = *well;
    let h = well_height(well);
    let wd = well_width(well);
    let mut dy: usize = 0;
    let mut p: usize = h;
    proof {
        lemma_count_rows(w0, h as int);
    }
    while p > 0
        invariant
            0 <= p <= h,
            h == height(w0),
            wd == width(w0),
            clear_state(w0, *well, p as int),
            dy == full_count_from(w0, p as int),
        decreases p,
    {
        let y = p - 1;
        let ghost w1 = *well;
        proof {
            lemma_count_rows(w0, p as int);
            lemma_count_rows(w0, y as int);
            assert(dy + y < h);
        }
        let mut count: usize = 0;
        let mut x: usize = 0;
        while x < wd
            invariant
                0 <= x <= wd,
                y < h,
                dy + y < h,
                h == height(w0),
                wd == width(w0),
                well_shape(*well) == well_shape(w0),
                forall|x1: int| 0 <= x1 < wd ==> #[trigger] cell(w1, x1, y as int) == cell(w0, x1, y as int),
                count == filled_in_row(w0, y as int, x as int),
                forall|x1: int, t: int|
                    #![trigger cell(*well, x1, t)]
                    0 <= x1 < wd && 0 <= t < h ==> cell(*well, x1, t) == if x1 < x && dy != 0 && t == y {
                        None
                    } else if x1 < x && dy != 0 && t == y + dy {
                        cell(w0, x1, y as int)
                    } else {
                        cell(w1, x1, t)
                    },
            decreases wd - x,
        {
            proof {
                lemma_filled_in_row(w0, y as int, x as int);
            }
            let c = well_at(well, x, y);
            if c.is_some() {
                count = count + 1;
            }
            if dy != 0 {
                well_put(well, x, y + dy, c);
                well_put(well, x, y, None);
            }
            x = x + 1;
        }
        proof {
            lemma_filled_in_row(w0, y as int, wd as int);
        }
        if count == wd {
            dy = dy + 1;
        }
        proof {
            let q = y as int;
            let pp = p as int;
            let d1 = full_count_from(w0, pp + 1);
            let d0 = full_count_from(w0, pp);
            assert(d0 == full_count_from(w0, q + 1));
            assert(row_full(w0, q) <==> count == wd);
            assert(dy == full_count_from(w0, q));
            assert forall|x1: int, t: int| 0 <= x1 < width(w0) && 0 <= t < q implies #[trigger] cell(*well, x1, t) == cell(w0, x1, t) by {
                assert(cell(w1, x1, t) == cell(w0, x1, t));
            }
            assert forall|x1: int, t: int| 0 <= x1 < width(w0) && q <= t < q + d0 implies (#[trigger] cell(*well, x1, t)) is None by {
                if t > q {
                    if row_full(w0, pp) {
                        assert(d0 == d1 + 1);
                    } else {
                        assert(d0 == d1);
                    }
                }
            }
            assert forall|x1: int, t: int|
                0 <= x1 < width(w0) && q + d0 <= t < height(w0) implies #[trigger] cell(*well, x1, t) == cell(w0, x1, kept_from(w0, q)[t - q - d0]) by {
                let kq = kept_from(w0, q);
                if t == q + d0 {
                } else {
                    let kp = kept_from(w0, pp);
                    assert(pp < height(w0));
                    if row_full(w0, pp) {
                        assert(d0 == d1 + 1);
                        assert(nonfull_from(w0, pp) == nonfull_from(w0, pp + 1));
                        assert(kq[t - q - d0] == kp[t - pp - d1]);
                    } else {
                        assert(d0 == d1);
                        assert(nonfull_from(w0, pp) == seq![pp] + nonfull_from(w0, pp + 1));
                        assert(kq[t - q - d0] == kp[t - pp - d1]);
                    }
                }
            }
        }
        p = y;
    }
    proof {
        lemma_count_rows(w0, 0);
        assert forall|x: int, y: int| in_bounds(w0, x, y) implies #[trigger] cell(*well, x, y) == cleared_cell(w0, x, y) by {
            if h > 0 {
                assert(kept_from(w0, 0).len() == 1 + nonfull_from(w0, 1).len());
                lemma_count_rows(w0, 1);
            }
        }
    }
}

} // verus!

verus! {

/// Width of the piece's bounding rectangle, in blocks.
pub open spec fn size_x(m: Mino) -> int {
    m.hi_x() - m.lo_x() + 1
}

/// How far `center_mino` moves the piece right.
pub open spec fn center_shift(m: Mino, w: Well) -> int {
    trunc_div(width(w) - size_x(m), 2)
}

/// Centring the piece keeps its coordinates within `i32`.
pub open spec fn center_fits(m: Mino, w: Well) -> bool {
    &&& fits_i32(size_x(m), m.hi_y() - m.lo_y() + 1)
    &&& fits_i32(width(w) - size_x(m), 0)
    &&& m.translate_fits(vec2 { x: center_shift(m, w) as i32, y: 0 })
}

/// Moves the piece right so that it sits in the middle of the well's width
/// (rounding the gap on each side toward zero).
pub fn center_mino(mino: &mut Mino, well: &Well)
    requires
        well_ok(*well),
        center_fits(*old(mino), *well),
    ensures
        *final(mino) == old(mino).moved(center_shift(*old(mino), *well), 0),
{
    let ext = mino.get_size();
    let n = well_width(well) as i32;
    let v = vec2i::right().mul(n - ext.x).div(2);
    mino.translate(v);
}

/// The piece turned counter-clockwise `n` times.
pub open spec fn turned_l_times(m: Mino, n: nat) -> Mino
    decreases n,
{
    if n == 0 {
        m
    } else {
        turned_l_times(m.turned_l(), (n - 1) as nat)
    }
}

/// Turning the piece counter-clockwise `n` times stays within `i32`.
pub open spec fn turns_l_fit(m: Mino, n: nat) -> bool
    decreases n,
{
    n == 0 || (m.rotation > i32::MIN && m.rotl_fits() && turns_l_fit(m.turned_l(), (n - 1) as nat))
}

/// The number of counter-clockwise turns that bring the turn counter back
/// to a multiple of four: the counter modulo four.
pub open spec fn turns_back(m: Mino) -> nat {
    (m.rotation % 4) as nat
}

/// The piece as `reset_mino` leaves it: turned back to its first
/// orientation, then moved so that its bounding rectangle starts at `(0, 0)`.
pub open spec fn reset_of(m: Mino) -> Mino {
    let t = turned_l_times(m, turns_back(m));
    t.moved(-t.lo_x(), -t.lo_y())
}

/// Resetting the piece stays within `i32`.
pub open spec fn reset_fits(m: Mino) -> bool {
    let t = turned_l_times(m, turns_back(m));
    &&& turns_l_fit(m, turns_back(m))
    &&& t.lo_x() > i32::MIN
    &&& t.lo_y() > i32::MIN
    &&& t.translate_fits(vec2 { x: -t.lo_x() as i32, y: -t.lo_y() as i32 })
}

/// Turns the piece back to its first orientation (as many counter-clockwise
/// turns as the turn counter modulo four) and moves its bounding rectangle
/// to start at `(0, 0)`.
pub fn reset_mino(mino: &mut Mino)
    requires
        reset_fits(*old(mino)),
    ensures
        *final(mino) == reset_of(*old(mino)),
{
    let ghost m0 = *mino;
    let r = mino.rotation % 4;
    let n: i32 = if r < 0 { r + 4 } else { r };
    assert(n == turns_back(m0));
    let mut i: i32 = 0;
    while i < n
        invariant
            0 <= i <= n,
            n == turns_back(m0),
            turns_l_fit(*mino, (n - i) as nat),
            turned_l_times(*mino, (n - i) as nat) == turned_l_times(m0, n as nat),
        decreases n - i,
    {
        mino.rotl();
        i = i + 1;
    }
    let (lo, _hi) = mino.get_rect();
    mino.translate(lo.neg());
}

} // verus!

verus! {

/// A piece in play: centred about its turning point, its centre within
/// range, and its turn counter away from the ends of `i32`.
pub open spec fn mino_ok(m: Mino) -> bool {
    &&& m.wf()
    &&& centre_in_range(m)
    &&& i32::MIN + 4 <= m.rotation <= i32::MAX - 4
}

/// Pushing a centred piece in range back between the walls fits `i32`.
proof fn lemma_into_bounds_fits(t: Mino, w: Well)
    requires
        t.wf(),
        centre_in_range(t),
        well_ok(w),
    ensures
        into_bounds_fits(t, w),
{
    lemma_centred_bounds(t);
    let s1 = shift_in_left(t);
    assert(0 <= s1 <= 0x200_0002);
    assert(t.translate_fits(vec2 { x: s1 as i32, y: 0 }));
    let t1 = t.moved(s1, 0);
    let s2 = shift_in_right(t, width(w));
    assert(-0x200_0003 <= s2 <= 0);
    assert(forall|i: int| 0 <= i < 4 ==> (#[trigger] t1.blocks[i]).x == t.blocks[i].x + s1);
    assert(t1.translate_fits(vec2 { x: s2 as i32, y: 0 }));
}

/// Moving a centred piece in range by one cell fits `i32`.
proof fn lemma_steps_fit(m: Mino, w: Well)
    requires
        m.wf(),
        centre_in_range(m),
    ensures
        move_fits(m, w, MinoMove::Left),
        move_fits(m, w, MinoMove::Right),
        move_fits(m, w, MinoMove::Down),
        mino_in_box(m),
{
    lemma_centred_bounds(m);
}

/// Centring a centred piece in range fits `i32`.
proof fn lemma_center_fits(m: Mino, w: Well)
    requires
        m.wf(),
        centre_in_range(m),
        well_ok(w),
    ensures
        center_fits(m, w),
{
    lemma_centred_bounds(m);
    let s = center_shift(m, w);
    assert(-3 <= s <= 0x80_0000);
}

/// A piece in play lies in the box where dropping it fits `i32`.
pub proof fn lemma_ok_in_box(m: Mino)
    requires
        mino_ok(m),
    ensures
        mino_in_box(m),
{
    lemma_centred_bounds(m);
}

/// Every move of a piece in play fits the machine integers.
pub proof fn lemma_ok_moves_fit(m: Mino, w: Well)
    requires
        mino_ok(m),
        well_ok(w),
    ensures
        move_fits(m, w, MinoMove::Left),
        move_fits(m, w, MinoMove::Right),
        move_fits(m, w, MinoMove::Down),
        move_fits(m, w, MinoMove::RotateLeft),
        move_fits(m, w, MinoMove::RotateRight),
        mino_in_box(m),
        center_fits(m, w),
{
    lemma_steps_fit(m, w);
    lemma_center_fits(m, w);
    lemma_centred_turns(m);
    lemma_centred_bounds(m);
    lemma_into_bounds_fits(m.turned_l(), w);
    lemma_into_bounds_fits(m.turned_r(), w);
}

} // verus!

verus! {

/// Turning a piece in play counter-clockwise `n` times keeps it centred and
/// in range, and every turn fits `i32`.
#[verifier::spinoff_prover]
#[verifier::rlimit(50)]
proof fn lemma_turns_l_ok(m: Mino, n: nat)
    requires
        m.wf(),
        centre_in_range(m),
        m.rotation - n >= i32::MIN,
    ensures
        turns_l_fit(m, n),
        turned_l_times(m, n).wf(),
        centre_in_range(turned_l_times(m, n)),
        turned_l_times(m, n).rotation == m.rotation - n,
        turned_l_times(m, n).origin2 == m.origin2,
    decreases n,
{
    if n > 0 {
        lemma_centred_bounds(m);
        lemma_centred_turns(m);
        turn_left_then_right_restores(m);
        let t = m.turned_l();
        lemma_turns_l_ok(t, (n - 1) as nat);
    }
}

/// Resetting a piece in play fits `i32` and gives a piece in play again.
pub proof fn lemma_reset_ok(m: Mino)
    requires
        mino_ok(m),
    ensures
        reset_fits(m),
        mino_ok(reset_of(m)),
{
    let n = turns_back(m);
    assert(n <= 3);
    assert((m.rotation - n) % 4 == 0);
    lemma_turns_l_ok(m, n);
    let t = turned_l_times(m, n);
    lemma_centred_bounds(t);
    let r = t.moved(-t.lo_x(), -t.lo_y());
    lemma_moved_wf(t, -t.lo_x(), -t.lo_y());
    assert(forall|i: int| 0 <= i < 4 ==> 0 <= (#[trigger] r.blocks[i]).x <= 4 && 0 <= r.blocks[i].y <= 4);
    assert(near_centre(r.origin2, r.blocks[0]));
    assert(t.rotation % 4 == 0);
}

} // verus!
