use vstd::prelude::*;

use crate::game::{in_well_bounds, mino_ok};
use crate::mino::{centre_in_range, near_centre, Mino};
use crate::rng::{is_some_piece, mino_of_kind, stack_of, MinoRng};
use crate::unit::{Kind, LocalMinoRng, Mode, Unit, UnitCommandKind};
use crate::unit_commands::{command_ready, pre_clear_check, unit_ok};
use crate::vec2::vec2i;
use crate::well::{height, in_bounds, well_height, well_ok, well_width, width, Well, MAX_WELL_DIM};

verus! {

/// Whether the well's sizes are in range and it is at least one cell wide.
pub fn well_check(w: &Well) -> (r: bool)
    ensures
        r == (well_ok(*w) && width(*w) >= 1),
{
    let wd = well_width(w);
    let h = well_height(w);
    if wd > MAX_WELL_DIM || h > MAX_WELL_DIM || wd < 1 {
        return false;
    }
    match wd.checked_mul(h) {
        Some(n) => n <= (isize::MAX as usize) / 16,
        None => false,
    }
}

fn same_vec(a: vec2i, b: vec2i) -> (r: bool)
    ensures
        r == (a.x == b.x && a.y == b.y),
{
    a.x == b.x && a.y == b.y
}

/// Whether `m` is the fresh piece of kind `k`.
fn is_piece_check(m: &Mino, k: usize) -> (r: bool)
    requires
        k < 7,
    ensures
        r == m.is_piece(k as int),
{
    let p = mino_of_kind(k);
    let r = same_vec(m.origin2, p.origin2) && m.rotation == p.rotation && same_vec(m.blocks[0], p.blocks[0])
        && same_vec(m.blocks[1], p.blocks[1]) && same_vec(m.blocks[2], p.blocks[2]) && same_vec(
        m.blocks[3],
        p.blocks[3],
    ) && m.blocks_data[0] == p.blocks_data[0] && m.blocks_data[1] == p.blocks_data[1] && m.blocks_data[2]
        == p.blocks_data[2] && m.blocks_data[3] == p.blocks_data[3];
    proof {
        if r {
            assert forall|i: int| 0 <= i < 4 implies (#[trigger] m.blocks[i]).x == p.blocks[i].x && m.blocks[i].y
                == p.blocks[i].y && m.blocks_data[i] == p.blocks_data[i] by {
                if i == 0 {
                } else if i == 1 {
                } else if i == 2 {
                } else {
                }
            }
        } else {
            if m.is_piece(k as int) {
                assert(m.blocks[0].x == p.blocks[0].x && m.blocks[0].y == p.blocks[0].y);
                assert(m.blocks[1].x == p.blocks[1].x && m.blocks[1].y == p.blocks[1].y);
                assert(m.blocks[2].x == p.blocks[2].x && m.blocks[2].y == p.blocks[2].y);
                assert(m.blocks[3].x == p.blocks[3].x && m.blocks[3].y == p.blocks[3].y);
                assert(m.blocks_data[0] == p.blocks_data[0]);
                assert(m.blocks_data[1] == p.blocks_data[1]);
                assert(m.blocks_data[2] == p.blocks_data[2]);
                assert(m.blocks_data[3] == p.blocks_data[3]);
            }
        }
    }
    r
}

/// Whether `m` is a fresh piece of one of the seven kinds.
pub fn fresh_piece_check(m: &Mino) -> (r: bool)
    ensures
        r == is_some_piece(*m),
{
    let mut k: usize = 0;
    while k < 7
        invariant
            0 <= k <= 7,
            forall|j: int| 0 <= j < k ==> !(#[trigger] m.is_piece(j)),
        decreases 7 - k,
    {
        if is_piece_check(m, k) {
            return true;
        }
        k = k + 1;
    }
    assert forall|j: int| 0 <= j < 7 implies !(#[trigger] m.is_piece(j)) by {}
    false
}

/// Whether every piece left in the generator's bag is a fresh piece.
pub fn rng_check(rng: &MinoRng) -> (r: bool)
    ensures
        r == rng.wf(),
{
    match rng {
        MinoRng::_Hard { .. } => true,
        MinoRng::Fair { stack, .. } => {
            let mut i: usize = 0;
            while i < stack.len()
                invariant
                    0 <= i <= stack@.len(),
                    stack_of(*rng) == stack@,
                    forall|j: int| 0 <= j < i ==> is_some_piece(#[trigger] stack@[j]),
                decreases stack@.len() - i,
            {
                if !fresh_piece_check(&stack[i]) {
                    return false;
                }
                i = i + 1;
            }
            true
        },
    }
}

/// Whether the upcoming pieces are fresh pieces, there is at least one, and
/// the generator is in order (`LocalMinoRng::wf`).
pub fn local_rng_check(rng: &LocalMinoRng) -> (r: bool)
    ensures
        r == rng.wf(),
{
    if rng.queue.len() == 0 || !rng_check(&rng.rng) {
        return false;
    }
    let mut i: usize = 0;
    while i < rng.queue.len()
        invariant
            0 <= i <= rng.queue@.len(),
            forall|j: int| 0 <= j < i ==> is_some_piece(#[trigger] rng.queue@[j]),
        decreases rng.queue@.len() - i,
    {
        if !fresh_piece_check(&rng.queue[i]) {
            return false;
        }
        i = i + 1;
    }
    true
}

fn near_check(o: vec2i, b: vec2i) -> (r: bool)
    ensures
        r == near_centre(o, b),
{
    let dx = 2 * (b.x as i64) - o.x as i64;
    let dy = 2 * (b.y as i64) - o.y as i64;
    -4 <= dx && dx <= 4 && -4 <= dy && dy <= 4
}

/// Whether the piece is one that the moves and turns can take (`mino_ok`).
pub fn mino_check(m: &Mino) -> (r: bool)
    ensures
        r == mino_ok(*m),
{
    let o = m.origin2;
    let centred = (o.x as i64 + o.y as i64) % 2 == 0;
    let near = near_check(o, m.blocks[0]) && near_check(o, m.blocks[1]) && near_check(o, m.blocks[2])
        && near_check(o, m.blocks[3]);
    let in_range = -0x400_0000 <= o.x && o.x <= 0x400_0000 && -0x400_0000 <= o.y && o.y <= 0x400_0000;
    let turns = i32::MIN + 4 <= m.rotation && m.rotation <= i32::MAX - 4;
    proof {
        assert(centred == ((o.x + o.y) % 2 == 0));
        if near {
            assert forall|i: int| 0 <= i < 4 implies near_centre(o, #[trigger] m.blocks[i]) by {
                if i == 0 {
                } else if i == 1 {
                } else if i == 2 {
                } else {
                }
            }
        }
        assert(in_range == centre_in_range(*m));
    }
    centred && near && in_range && turns
}

fn block_in_well(w: &Well, b: vec2i) -> (r: bool)
    ensures
        r == (b.y < 0 || in_bounds(*w, b.x as int, b.y as int)),
{
    if b.y < 0 {
        return true;
    }
    b.x >= 0 && (b.x as usize) < well_width(w) && (b.y as usize) < well_height(w)
}

/// Whether every block of the piece lies in the well or above it.
pub fn in_well_check(m: &Mino, w: &Well) -> (r: bool)
    requires
        well_ok(*w),
    ensures
        r == in_well_bounds(*m, *w),
{
    let r = block_in_well(w, m.blocks[0]) && block_in_well(w, m.blocks[1]) && block_in_well(w, m.blocks[2])
        && block_in_well(w, m.blocks[3]);
    proof {
        if r {
            assert forall|i: int| 0 <= i < 4 implies (#[trigger] m.blocks[i]).y < 0 || in_bounds(
                *w,
                m.blocks[i].x as int,
                m.blocks[i].y as int,
            ) by {
                if i == 0 {
                } else if i == 1 {
                } else if i == 2 {
                } else {
                }
            }
        } else {
            if in_well_bounds(*m, *w) {
                assert(m.blocks[0].y < 0 || in_bounds(*w, m.blocks[0].x as int, m.blocks[0].y as int));
                assert(m.blocks[1].y < 0 || in_bounds(*w, m.blocks[1].x as int, m.blocks[1].y as int));
                assert(m.blocks[2].y < 0 || in_bounds(*w, m.blocks[2].x as int, m.blocks[2].y as int));
                assert(m.blocks[3].y < 0 || in_bounds(*w, m.blocks[3].x as int, m.blocks[3].y as int));
            }
        }
    }
    r
}

/// Whether the unit's well and generator are in order (`unit_ok`).
pub fn unit_check(u: &Unit) -> (r: bool)
    ensures
        r == unit_ok(*u),
{
    if !well_check(&u.base.well) {
        return false;
    }
    match &u.kind {
        Kind::Local { rng, .. } => local_rng_check(rng),
        Kind::Network => true,
    }
}

fn optional_mino_check(m: &Option<Mino>) -> (r: bool)
    ensures
        r == (*m matches Some(p) ==> mino_ok(p)),
{
    match m {
        Some(p) => mino_check(p),
        None => true,
    }
}

/// Whether the unit can execute the command without a panic or an overflow
/// (`command_ready`).
pub fn command_check(u: &Unit, k: &UnitCommandKind) -> (r: bool)
    ensures
        r == command_ready(*u, *k),
{
    if !unit_check(u) {
        return false;
    }
    match *k {
        UnitCommandKind::MoveLeft | UnitCommandKind::MoveRight | UnitCommandKind::RotateLeft
        | UnitCommandKind::RotateRight => optional_mino_check(&u.base.falling_mino),
        UnitCommandKind::ApplyGravity(_) => match &u.base.falling_mino {
            Some(m) => mino_check(m) && in_well_check(m, &u.base.well),
            None => true,
        },
        UnitCommandKind::Store => optional_mino_check(&u.base.falling_mino) && optional_mino_check(
            &u.base.stored_mino,
        ),
        UnitCommandKind::PreClearLines => pre_clear_check(u),
        UnitCommandKind::GameOfLife => match u.base.mode {
            Mode::GameOfLife { count } => count < u32::MAX,
            _ => true,
        },
        UnitCommandKind::SendLines(l) => match u.base.mode {
            Mode::Versus { lines_received_sum, .. } => lines_received_sum.checked_add(l).is_some(),
            _ => true,
        },
        UnitCommandKind::AddLines(l, _) => l <= well_height(&u.base.well) && match u.base.mode {
            Mode::Versus { lines_received_sum, .. } => lines_received_sum >= l,
            _ => true,
        },
        _ => true,
    }
}

} // verus!
