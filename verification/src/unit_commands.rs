use vstd::prelude::*;

use crate::game::{
    add_mino_to_well, collides, in_well_bounds, lemma_ok_moves_fit, lemma_dropped, mino_fits, mino_fits_in_well,
    mino_ok, placed_cell, try_down_mino, try_mutate_mino, apply_move, fits_scan_safe, MinoMove,
};
use crate::mino::Mino;
use crate::unit::{Base, Kind, LocalMinoRng, Unit, UnitCommand, UnitCommandInner, UnitCommandKind};
use crate::command::CommandWrapper;
use crate::game::center_shift;
use crate::well::{cell, well_at, well_ok, well_shape, well_width, width, height, Well, MAX_WELL_DIM};
use crate::block::{data_at, Data};
use crate::game::row_full;
use crate::unit::{Mode, State, level_up, level_up_fits, fits_i32_sub, update_level};
use crate::rng::stack_of;

verus! {

/// What every unit command needs of the unit: a well of workable size,
/// at least one column wide, and for a local player upcoming pieces that are
/// fresh pieces.
pub open spec fn unit_ok(u: Unit) -> bool {
    &&& well_ok(u.base.well)
    &&& width(u.base.well) >= 1
    &&& u.kind matches Kind::Local { rng, .. } ==> rng.wf()
}

/// The falling piece after a move: moved when the moved piece would not
/// collide, kept where it is otherwise.
pub open spec fn moved_falling(f: Option<Mino>, w: Well, mv: MinoMove) -> Option<Mino> {
    match f {
        Some(m) => Some(if !collides(apply_move(m, w, mv), w) { apply_move(m, w, mv) } else { m }),
        None => None,
    }
}

/// Moves or turns the falling piece, if there is one and the result fits.
pub fn move_falling(base: &mut Base, mv: MinoMove)
    requires
        well_ok(old(base).well),
        old(base).falling_mino matches Some(m) ==> mino_ok(m),
    ensures
        *final(base) == (Base { falling_mino: moved_falling(old(base).falling_mino, old(base).well, mv), ..*old(base) }),
{
    match base.falling_mino {
        Some(m) => {
            let mut m = m;
            proof {
                lemma_ok_moves_fit(m, base.well);
            }
            try_mutate_mino(&mut m, &base.well, mv);
            base.falling_mino = Some(m);
        },
        None => {},
    }
}

} // verus!

verus! {

/// `n` is how far the piece falls under gravity `g`: at most `g` rows, each
/// free of collisions, stopping early only at the first row that collides.
pub open spec fn fall_distance(m: Mino, w: Well, g: int, n: int) -> bool {
    &&& 0 <= n
    &&& g <= 0 ==> n == 0
    &&& g > 0 ==> n <= g
    &&& forall|j: int| 1 <= j <= n ==> !collides(#[trigger] m.moved(0, j), w)
    &&& (g > 0 && n < g) ==> collides(m.moved(0, n + 1), w)
}

/// The well with the piece laid into it.
#[verifier::opaque]
pub open spec fn well_with(w: Well, old_w: Well, m: Mino) -> bool {
    &&& well_shape(w) == well_shape(old_w)
    &&& forall|x: int, y: int| #[trigger] cell(w, x, y) == placed_cell(old_w, m, x, y)
}

/// A local player's upcoming pieces after the first one was taken and a new
/// one generated.
pub open spec fn queue_advanced(old_rng: LocalMinoRng, new_rng: LocalMinoRng) -> bool {
    &&& new_rng.wf()
    &&& new_rng.queue@.len() == old_rng.queue@.len()
    &&& new_rng.queue@.drop_last() == old_rng.queue@.drop_first()
}

#[verifier::opaque]
/// The unit after the falling piece, now `mf`, has fallen and, when
/// `landed`, has been dealt with; `out` are the commands it asks for.
pub open spec fn gravity_outcome(u0: Unit, u1: Unit, uid: usize, mf: Mino, landed: bool, out: Seq<UnitCommandInner>) -> bool {
    let w0 = u0.base.well;
    &&& !landed ==> u1.base == (Base { falling_mino: Some(mf), ..u0.base }) && u1.kind == u0.kind && out.len() == 0
    &&& (landed && !mino_fits(mf, w0)) ==> u1.base == (Base {
        falling_mino: Some(mf),
        state: crate::unit::State::Lose,
        just_lost: u0.base.just_lost || !(u0.base.state is Lose),
        ..u0.base
    }) && u1.kind == u0.kind && out.len() == 0
    &&& (landed && mino_fits(mf, w0)) ==> {
        &&& well_with(u1.base.well, w0, mf)
        &&& u1.base == (Base { well: u1.base.well, falling_mino: Some(mf), can_store_mino: true, ..u0.base })
        &&& match u0.kind {
            Kind::Network => u1.kind is Network && out.len() == 0,
            Kind::Local { rng, mino_controller } => u1.kind matches Kind::Local { rng: r1, mino_controller: mc1 }
                && mc1 == mino_controller && queue_advanced(rng, r1) && out == seq![
                (uid, UnitCommandKind::NextMino(rng.queue@[0].moved(center_shift(rng.queue@[0], u1.base.well), 0))),
                (uid, UnitCommandKind::PreClearLines),
                (uid, UnitCommandKind::PreGameOfLife),
            ],
        }
    }
}

/// Lets the piece fall up to `g` rows, stopping before the first row where it
/// would collide; gives the piece, the rows of `g` left over, and how far it fell.
fn fall_mino(m0: Mino, well: &Well, g: i32) -> (r: (Mino, i32, Ghost<int>))
    requires
        well_ok(*well),
        crate::game::mino_in_box(m0),
    ensures
        fall_distance(m0, *well, g as int, r.2@),
        r.0 == m0.moved(0, r.2@),
        r.1 == g - r.2@,
        0 <= r.2@ <= 0x800_0000,
{
    let mut m = m0;
    let ghost g0 = g as int;
    let mut g = g;
    let ghost mut n: int = 0;
    proof {
        assert(m0.moved(0, 0) == m0) by {
            broadcast use vstd::array::group_array_axioms;
            assert(m0.moved(0, 0).blocks =~= m0.blocks);
        }
    }
    loop
        invariant
            well_ok(*well),
            crate::game::mino_in_box(m0),
            0 <= n <= 0x800_0000,
            g0 > 0 ==> n <= g0,
            g0 <= 0 ==> n == 0,
            m == m0.moved(0, n),
            g as int == g0 - n,
            forall|j: int| 1 <= j <= n ==> !collides(#[trigger] m0.moved(0, j), *well),
        ensures
            0 <= n <= 0x800_0000,
            g0 > 0 ==> n <= g0,
            g0 <= 0 ==> n == 0,
            m == m0.moved(0, n),
            g as int == g0 - n,
            forall|j: int| 1 <= j <= n ==> !collides(#[trigger] m0.moved(0, j), *well),
            g <= 0 || collides(m0.moved(0, n + 1), *well),
        decreases 0x800_0000 - n,
    {
        if g <= 0 {
            break;
        }
        proof {
            lemma_dropped(m0, *well, n);
        }
        if !try_down_mino(&mut m, well) {
            break;
        }
        g = g - 1;
        proof {
            n = n + 1;
            lemma_dropped(m0, *well, n);
        }
    }
    assert(fall_distance(m0, *well, g0, n));
    (m, g, Ghost(n))
}

/// Deals with a piece that has landed at `m`: if it does not fit in the well
/// the game is lost; otherwise it is laid into the well, storing is allowed
/// again, and a local player asks for the next piece, a line clear check and
/// a life step.
#[verifier::rlimit(50)]
fn land_mino(unit: &mut Unit, unit_id: usize, m: Mino, Ghost(u0): Ghost<Unit>) -> (out: Vec<UnitCommandInner>)
    requires
        unit_ok(*old(unit)),
        old(unit).base == (Base { falling_mino: Some(m), ..u0.base }),
        old(unit).kind == u0.kind,
        in_well_bounds(m, old(unit).base.well),
    ensures
        unit_ok(*final(unit)),
        gravity_outcome(u0, *final(unit), unit_id, m, true, out@),
{
    reveal(gravity_outcome);
    let mut out: Vec<UnitCommandInner> = Vec::new();
    if !mino_fits_in_well(&m, &unit.base.well) {
        unit.base.lose();
    } else {
        unit.base.can_store_mino = true;
        add_mino_to_well(&m, &mut unit.base.well);
        proof {
            reveal(well_with);
        }
        assert(well_with(unit.base.well, u0.base.well, m));
        let ghost b1 = unit.base;
        match &mut unit.kind {
            Kind::Local { rng, .. } => {
                let next = rng.next_mino_centered(&unit.base.well);
                out.push((unit_id, UnitCommandKind::NextMino(next)));
                out.push((unit_id, UnitCommandKind::PreClearLines));
                out.push((unit_id, UnitCommandKind::PreGameOfLife));
                assert(out@ =~= seq![
                    (unit_id, UnitCommandKind::NextMino(next)),
                    (unit_id, UnitCommandKind::PreClearLines),
                    (unit_id, UnitCommandKind::PreGameOfLife),
                ]);
            },
            Kind::Network => {},
        }
        assert(unit.base == b1);
    }
    out
}

/// Lets the falling piece fall up to `g` rows. When it could not fall all
/// of them it has landed: if it does not fit in the well the game is lost;
/// otherwise it is laid into the well, storing is allowed again, and a local
/// player asks for the next piece, a line clear check and a life step.
#[verifier::rlimit(50)]
pub fn apply_gravity(unit: &mut Unit, unit_id: usize, g: i32) -> (out: Vec<UnitCommandInner>)
    requires
        unit_ok(*old(unit)),
        old(unit).base.falling_mino matches Some(m) ==> mino_ok(m) && in_well_bounds(m, old(unit).base.well),
    ensures
        unit_ok(*final(unit)),
        old(unit).base.falling_mino is None ==> *final(unit) == *old(unit) && out@.len() == 0,
        old(unit).base.falling_mino matches Some(m) ==> exists|n: int|
            #![trigger m.moved(0, n)]
            fall_distance(m, old(unit).base.well, g as int, n) && gravity_outcome(*old(unit), *final(unit), unit_id, m.moved(0, n), g > 0 && n < g, out@),
{
    let ghost u0 = *unit;
    match unit.base.falling_mino {
        None => Vec::new(),
        Some(m0) => {
            proof {
                crate::game::lemma_ok_in_box(m0);
            }
            let (m, rest, Ghost(n)) = fall_mino(m0, &unit.base.well, g);
            unit.base.falling_mino = Some(m);
            if rest > 0 {
                proof {
                    if n > 0 {
                        assert(!collides(m0.moved(0, n), u0.base.well));
                        assert forall|i: int| 0 <= i < 4 implies (#[trigger] m.blocks[i]).y < 0 || crate::well::in_bounds(u0.base.well, m.blocks[i].x as int, m.blocks[i].y as int) by {
                            assert(!crate::game::block_collides(m.blocks[i], u0.base.well));
                        }
                    } else {
                        crate::mino::lemma_moved_zero(m0);
                    }
                }
                let out = land_mino(unit, unit_id, m, Ghost(u0));
                assert(fall_distance(m0, u0.base.well, g as int, n) && gravity_outcome(u0, *unit, unit_id, m0.moved(0, n), g > 0 && n < g, out@));
                out
            } else {
                let out: Vec<UnitCommandInner> = Vec::new();
                proof {
                    reveal(gravity_outcome);
                    assert(gravity_outcome(u0, *unit, unit_id, m0.moved(0, n), false, out@));
                }
                assert(fall_distance(m0, u0.base.well, g as int, n) && gravity_outcome(u0, *unit, unit_id, m0.moved(0, n), g > 0 && n < g, out@));
                out
            }
        },
    }
}

} // verus!

verus! {

/// Row `y` holds no garbage block.
pub open spec fn row_without_garbage(w: Well, y: int) -> bool {
    forall|x: int| 0 <= x < width(w) ==> (#[trigger] cell(w, x, y)) != Some(data_at(3, 0))
}

/// How many of the rows above `n` are full.
pub open spec fn full_rows_before(w: Well, n: int) -> int
    decreases n,
{
    if n <= 0 {
        0
    } else {
        full_rows_before(w, n - 1) + if row_full(w, n - 1) { 1int } else { 0int }
    }
}

/// How many of the rows above `n` are full and hold no garbage: the lines
/// that can be sent on.
pub open spec fn sendable_rows_before(w: Well, n: int) -> int
    decreases n,
{
    if n <= 0 {
        0
    } else {
        sendable_rows_before(w, n - 1) + if row_full(w, n - 1) && row_without_garbage(w, n - 1) { 1int } else { 0int }
    }
}

proof fn lemma_rows_before(w: Well, n: int)
    requires
        0 <= n,
    ensures
        0 <= sendable_rows_before(w, n) <= full_rows_before(w, n) <= n,
    decreases n,
{
    if n > 0 {
        lemma_rows_before(w, n - 1);
    }
}

/// Counting the rows above `n` that satisfy `p` by filtering them.
proof fn lemma_sendable_is_filter(w: Well, n: int, p: spec_fn(int) -> bool)
    requires
        0 <= n,
        forall|y: int| #[trigger] p(y) == (row_full(w, y) && row_without_garbage(w, y)),
    ensures
        Seq::new(n as nat, |y: int| y).filter(p).len() == sendable_rows_before(w, n),
    decreases n,
{
    reveal_with_fuel(Seq::filter, 1);
    if n > 0 {
        lemma_sendable_is_filter(w, n - 1, p);
        let s = Seq::new(n as nat, |y: int| y);
        assert(s.drop_last() =~= Seq::new((n - 1) as nat, |y: int| y));
        assert(s.last() == n - 1);
    }
}

/// Some row above `n` is full, so the count of full rows is positive.
proof fn lemma_full_row_counts(w: Well, n: int, y: int)
    requires
        0 <= y < n,
        row_full(w, y),
    ensures
        full_rows_before(w, n) > 0,
    decreases n,
{
    lemma_rows_before(w, n - 1);
    if y < n - 1 {
        lemma_full_row_counts(w, n - 1, y);
    }
}

/// The lines a local versus player sends on after a line clear check in
/// which some scanned row is full: as many as there are scanned rows that
/// are full and hold no gray garbage block. A full row holding garbage is
/// cleared but never sent back.
pub proof fn sent_lines_are_clean_full_rows(u0: Unit, u1: Unit, uid: usize, out: Seq<UnitCommandInner>, y0: int)
    requires
        pre_clear_outcome(u0, u1, uid, out),
        u0.kind is Local,
        u0.base.mode is Versus,
        0 <= y0 < scanned_rows(u0.base),
        forall|x: int| 0 <= x < width(u0.base.well) ==> (#[trigger] cell(u0.base.well, x, y0)) is Some,
    ensures
        out.len() > 0,
        out.last() == (u0.base.mode->Versus_target_unit_id, UnitCommandKind::SendLines(
            Seq::new(scanned_rows(u0.base) as nat, |y: int| y).filter(
                |y: int|
                    (forall|x: int| 0 <= x < width(u0.base.well) ==> (#[trigger] cell(u0.base.well, x, y)) is Some) && (forall|x: int|
                        0 <= x < width(u0.base.well) ==> (#[trigger] cell(u0.base.well, x, y)) != Some(data_at(3, 0))),
            ).len() as usize,
        )),
{
    let w = u0.base.well;
    let n = scanned_rows(u0.base);
    let p = |y: int|
        (forall|x: int| 0 <= x < width(w) ==> (#[trigger] cell(w, x, y)) is Some) && (forall|x: int|
            0 <= x < width(w) ==> (#[trigger] cell(w, x, y)) != Some(data_at(3, 0)));
    assert(row_full(w, y0));
    lemma_full_row_counts(w, n, y0);
    lemma_sendable_is_filter(w, n, p);
    let received = match u0.base.mode {
        Mode::Versus { lines_received, .. } => lines_received@,
        _ => Seq::empty(),
    };
    assert(out.len() == received.len() + 1);
}

/// The rows a line clear looks at: those with both a well row and an
/// animation flag.
pub open spec fn scanned_rows(b: Base) -> int {
    if height(b.well) <= b.animate_line@.len() { height(b.well) } else { b.animate_line@.len() as int }
}

/// The animation flags after marking the full rows among the scanned ones.
pub open spec fn marked_lines(b: Base) -> Seq<bool> {
    Seq::new(b.animate_line@.len(), |y: int| if y < scanned_rows(b) && row_full(b.well, y) { true } else { b.animate_line@[y] })
}

/// The unit is a local player.
pub open spec fn is_local(k: Kind) -> bool {
    k is Local
}

/// The line clear check can run without overflow: the cleared line count
/// and a marathon's level stay in range.
pub open spec fn pre_clear_ok(u: Unit) -> bool {
    let c = full_rows_before(u.base.well, scanned_rows(u.base));
    &&& u.base.lines_cleared + c <= u32::MAX
    &&& c > 0 ==> (u.base.mode matches Mode::Marathon { level, lines_before_next_level, .. } ==> {
        &&& fits_i32_sub(lines_before_next_level as int, c)
        &&& level_up_fits(level as int, lines_before_next_level - c)
    })
}

/// Counts the filled cells of row `y` and whether the row holds garbage.
fn scan_row(w: &Well, y: usize) -> (r: (bool, bool))
    requires
        well_ok(*w),
        y < height(*w),
    ensures
        r.0 == row_full(*w, y as int),
        r.1 == row_without_garbage(*w, y as int),
{
    let wd = well_width(w);
    let mut count: u32 = 0;
    let mut sendable = true;
    let mut x: usize = 0;
    while x < wd
        invariant
            0 <= x <= wd,
            wd == width(*w),
            wd <= MAX_WELL_DIM,
            y < height(*w),
            count == crate::game::filled_in_row(*w, y as int, x as int),
            sendable == forall|x1: int| 0 <= x1 < x ==> (#[trigger] cell(*w, x1, y as int)) != Some(data_at(3, 0)),
        decreases wd - x,
    {
        proof {
            crate::game::lemma_filled_in_row(*w, y as int, x as int);
        }
        let c = well_at(w, x, y);
        if c.is_some() {
            count = count + 1;
        }
        let g = Data::gray();
        match c {
            Some(b) => {
                if b == g {
                    sendable = false;
                }
            },
            None => {},
        }
        x = x + 1;
    }
    proof {
        crate::game::lemma_filled_in_row(*w, y as int, wd as int);
    }
    (count as usize == wd, sendable)
}

} // verus!

verus! {

/// Marks the full rows among the scanned ones for the line clear animation;
/// gives how many were full and how many of those hold no garbage.
fn mark_full_rows(base: &mut Base) -> (r: (u32, usize))
    requires
        well_ok(old(base).well),
    ensures
        r.0 == full_rows_before(old(base).well, scanned_rows(*old(base))),
        r.1 == sendable_rows_before(old(base).well, scanned_rows(*old(base))),
        *final(base) == (Base { animate_line: final(base).animate_line, ..*old(base) }),
        final(base).animate_line@ == marked_lines(*old(base)),
{
    let ghost b0 = *base;
    let h = crate::well::well_height(&base.well);
    let n = if h <= base.animate_line.len() { h } else { base.animate_line.len() };
    let mut clearable: u32 = 0;
    let mut sendable: usize = 0;
    let mut y: usize = 0;
    while y < n
        invariant
            0 <= y <= n,
            n == scanned_rows(b0),
            n <= MAX_WELL_DIM,
            well_ok(b0.well),
            *base == (Base { animate_line: base.animate_line, ..b0 }),
            base.animate_line@.len() == b0.animate_line@.len(),
            forall|i: int| 0 <= i < base.animate_line@.len() ==> #[trigger] base.animate_line@[i] == if i < y && row_full(b0.well, i) { true } else { b0.animate_line@[i] },
            clearable == full_rows_before(b0.well, y as int),
            sendable == sendable_rows_before(b0.well, y as int),
        decreases n - y,
    {
        proof {
            lemma_rows_before(b0.well, y as int);
        }
        let (full, clean) = scan_row(&base.well, y);
        if full {
            clearable = clearable + 1;
            if clean {
                sendable = sendable + 1;
            }
            base.animate_line.set(y, true);
        }
        y = y + 1;
    }
    assert(base.animate_line@ =~= marked_lines(b0));
    (clearable, sendable)
}

/// How many of the scanned rows are full.
fn full_row_count(base: &Base) -> (c: u32)
    requires
        well_ok(base.well),
    ensures
        c == full_rows_before(base.well, scanned_rows(*base)),
{
    let h = crate::well::well_height(&base.well);
    let n = if h <= base.animate_line.len() { h } else { base.animate_line.len() };
    let mut count: u32 = 0;
    let mut y: usize = 0;
    while y < n
        invariant
            0 <= y <= n,
            n == scanned_rows(*base),
            n <= MAX_WELL_DIM,
            well_ok(base.well),
            count == full_rows_before(base.well, y as int),
        decreases n - y,
    {
        proof {
            lemma_rows_before(base.well, y as int);
        }
        let (full, _) = scan_row(&base.well, y);
        if full {
            count = count + 1;
        }
        y = y + 1;
    }
    count
}

/// Whether levelling up from `(level, lines)` stays within the machine
/// integers (`level_up_fits`).
pub fn level_up_check(level: u32, lines: i32) -> (r: bool)
    ensures
        r == level_up_fits(level as int, lines as int),
{
    let mut l: u64 = level as u64;
    let mut n: i64 = lines as i64;
    while n <= 0
        invariant
            l <= u32::MAX,
            i32::MIN <= n <= i32::MAX,
            level_up_fits(level as int, lines as int) == level_up_fits(l as int, n as int),
        decreases (if n <= 0 { 1 - n as int } else { 0 }),
    {
        if l + 1 > 0xffff_ffff || 10 * (l + 1) > 0x7fff_ffff || n + 10 * (l as i64 + 1) > 0x7fff_ffff {
            return false;
        }
        let ghost n0 = n;
        n = n + 10 * (l as i64 + 1);
        assert(n >= n0 + 10);
        l = l + 1;
    }
    true
}

/// Whether the line clear check can run on the unit (`pre_clear_ok`).
pub fn pre_clear_check(unit: &Unit) -> (r: bool)
    requires
        well_ok(unit.base.well),
    ensures
        r == pre_clear_ok(*unit),
{
    let c = full_row_count(&unit.base);
    if unit.base.lines_cleared as u64 + c as u64 > 0xffff_ffff {
        return false;
    }
    if c == 0 {
        return true;
    }
    match unit.base.mode {
        Mode::Marathon { level, lines_before_next_level, .. } => {
            let rest = lines_before_next_level as i64 - c as i64;
            if rest < -0x8000_0000 || rest > 0x7fff_ffff {
                return false;
            }
            level_up_check(level, rest as i32)
        },
        _ => true,
    }
}

/// `c` orders unit `unit_id` to add `lines` garbage lines with the gap in a
/// column left of `width`.
pub open spec fn is_add_lines(c: UnitCommandInner, unit_id: usize, lines: usize, width: usize) -> bool {
    c matches (u, UnitCommandKind::AddLines(l, g)) && u == unit_id && l == lines && g < width
}

/// `k1` is `k0` but for the random state of a local player's generator:
/// the controller, the upcoming pieces and the bag are the same.
pub open spec fn same_but_random_state(k0: Kind, k1: Kind) -> bool {
    match k0 {
        Kind::Network => k1 is Network,
        Kind::Local { rng, mino_controller } => k1 matches Kind::Local { rng: r1, mino_controller: mc1 }
            && mc1 == mino_controller && r1.queue@ == rng.queue@ && stack_of(r1.rng) == stack_of(rng.rng)
            && (r1.rng is Fair) == (rng.rng is Fair),
    }
}

/// The order to add `lines` garbage lines to unit `unit_id`, with the gap in
/// the column that the random number `draw` picks among `width` columns.
pub fn garbage_order(unit_id: usize, lines: usize, draw: usize, width: usize) -> (c: UnitCommandInner)
    requires
        width > 0,
    ensures
        c == (unit_id, UnitCommandKind::AddLines(lines, draw % width)),
{
    (unit_id, UnitCommandKind::AddLines(lines, draw % width))
}

/// For a local player in a versus game, turns every line count received
/// into an order to add that many garbage lines, with the gap in a column
/// drawn from the player's generator; the received list is emptied.
/// Otherwise nothing happens.
fn drain_received(mode: &mut Mode, kind: &mut Kind, width: usize, unit_id: usize) -> (out: Vec<UnitCommandInner>)
    requires
        width >= 1,
    ensures
        match *old(mode) {
            Mode::Versus { lines_received, lines_received_sum, target_unit_id } => if is_local(*old(kind)) {
                &&& *final(mode) matches Mode::Versus { lines_received: r1, lines_received_sum: s1, target_unit_id: t1 }
                    && r1@.len() == 0 && s1 == lines_received_sum && t1 == target_unit_id
                &&& out@.len() == lines_received@.len()
                &&& forall|i: int| 0 <= i < out@.len() ==> is_add_lines(#[trigger] out@[i], unit_id, lines_received@[i], width)
                &&& if lines_received@.len() == 0 {
                    *final(kind) == *old(kind)
                } else {
                    same_but_random_state(*old(kind), *final(kind))
                }
            } else {
                *final(mode) == *old(mode) && *final(kind) == *old(kind) && out@.len() == 0
            },
            _ => *final(mode) == *old(mode) && *final(kind) == *old(kind) && out@.len() == 0,
        },
{
    let mut out: Vec<UnitCommandInner> = Vec::new();
    match mode {
        Mode::Versus { lines_received, .. } => {
            match kind {
                Kind::Local { rng, mino_controller } => {
                    let ghost r0 = lines_received@;
                    let ghost q0 = rng.queue@;
                    let ghost st0 = stack_of(rng.rng);
                    let ghost fair0 = rng.rng is Fair;
                    let ghost lr0 = *rng;
                    let ghost mc0 = *mino_controller;
                    loop
                        invariant
                            width >= 1,
                            out@.len() + lines_received@.len() == r0.len(),
                            lines_received@ == r0.skip(out@.len() as int),
                            forall|i: int| 0 <= i < out@.len() ==> is_add_lines(#[trigger] out@[i], unit_id, r0[i], width),
                            rng.queue@ == q0,
                            stack_of(rng.rng) == st0,
                            (rng.rng is Fair) == fair0,
                            *mino_controller == mc0,
                            out@.len() == 0 ==> *rng == lr0,
                        ensures
                            lines_received@.len() == 0,
                            out@.len() == r0.len(),
                            forall|i: int| 0 <= i < out@.len() ==> is_add_lines(#[trigger] out@[i], unit_id, r0[i], width),
                            rng.queue@ == q0,
                            stack_of(rng.rng) == st0,
                            (rng.rng is Fair) == fair0,
                            *mino_controller == mc0,
                            out@.len() == 0 ==> *rng == lr0,
                        decreases lines_received@.len(),
                    {
                        match lines_received.pop_front() {
                            Some(lines) => {
                                let draw = rng.rng.draw();
                                out.push(garbage_order(unit_id, lines, draw, width));
                                assert(lines_received@ =~= r0.skip(out@.len() as int));
                            },
                            None => {
                                break;
                            },
                        }
                    }
                },
                Kind::Network => {},
            }
        },
        _ => {},
    }
    out
}

} // verus!

verus! {

/// The unit after a line clear check: the full rows among the scanned ones
/// are marked; a local versus player turns the lines it received into
/// garbage orders; and when some row was full, the unit enters the line
/// clear animation, counts the lines, a marathon levels up as needed, and a
/// local versus player sends its clean full lines to its target.
pub open spec fn pre_clear_outcome(u0: Unit, u1: Unit, uid: usize, out: Seq<UnitCommandInner>) -> bool {
    let b0 = u0.base;
    let b1 = u1.base;
    let w = b0.well;
    let c = full_rows_before(w, scanned_rows(b0));
    let sendable = sendable_rows_before(w, scanned_rows(b0));
    let drains = b0.mode is Versus && is_local(u0.kind);
    let received = match b0.mode {
        Mode::Versus { lines_received, .. } => if is_local(u0.kind) { lines_received@ } else { Seq::empty() },
        _ => Seq::empty(),
    };
    &&& if received.len() == 0 { u1.kind == u0.kind } else { same_but_random_state(u0.kind, u1.kind) }
    &&& b1.animate_line@ == marked_lines(b0)
    &&& b1.well == w
    &&& b1.falling_mino == b0.falling_mino
    &&& b1.stored_mino == b0.stored_mino
    &&& b1.can_store_mino == b0.can_store_mino
    &&& b1.just_changed_mino == b0.just_changed_mino
    &&& b1.just_lost == b0.just_lost
    &&& b1.just_won == b0.just_won
    &&& b1.just_cleared_lines == (b0.just_cleared_lines || c > 0)
    &&& (c > 0 ==> b1.state == State::LineClear { countdown: 0 })
    &&& (c == 0 ==> b1.state == b0.state)
    &&& b1.lines_cleared == b0.lines_cleared + c
    &&& match b0.mode {
        Mode::Marathon { level, level_target, lines_before_next_level } => if c > 0 {
            let (l2, n2) = level_up(level as int, lines_before_next_level - c);
            &&& b1.mode == (Mode::Marathon { level: l2 as u32, level_target, lines_before_next_level: n2 as i32 })
            &&& b1.just_changed_level == (b0.just_changed_level || lines_before_next_level - c <= 0)
        } else {
            b1.mode == b0.mode && b1.just_changed_level == b0.just_changed_level
        },
        Mode::Versus { lines_received, lines_received_sum, target_unit_id } => {
            &&& b1.mode matches Mode::Versus { lines_received: r1, lines_received_sum: s1, target_unit_id: t1 }
                && (if is_local(u0.kind) { r1@.len() == 0 } else { r1@ == lines_received@ }) && s1
                == lines_received_sum && t1 == target_unit_id
            &&& b1.just_changed_level == b0.just_changed_level
        },
        _ => b1.mode == b0.mode && b1.just_changed_level == b0.just_changed_level,
    }
    &&& out.len() == received.len() + (if c > 0 && drains { 1int } else { 0int })
    &&& forall|i: int| 0 <= i < received.len() ==> is_add_lines(#[trigger] out[i], uid, received[i], width(w) as usize)
    &&& (c > 0 && drains) ==> out[received.len() as int] == (b0.mode->Versus_target_unit_id, UnitCommandKind::SendLines(sendable as usize))
}

/// Checks for full rows after a piece has landed (see `pre_clear_outcome`).
pub fn pre_clear_lines(unit: &mut Unit, unit_id: usize) -> (out: Vec<UnitCommandInner>)
    requires
        unit_ok(*old(unit)),
        pre_clear_ok(*old(unit)),
    ensures
        unit_ok(*final(unit)),
        pre_clear_outcome(*old(unit), *final(unit), unit_id, out@),
{
    let ghost u0 = *unit;
    let (clearable, sendable) = mark_full_rows(&mut unit.base);
    proof {
        lemma_rows_before(u0.base.well, scanned_rows(u0.base));
    }
    let local = match unit.kind {
        Kind::Local { .. } => true,
        Kind::Network => false,
    };
    let width = well_width(&unit.base.well);
    let mut out = drain_received(&mut unit.base.mode, &mut unit.kind, width, unit_id);
    let ghost adds = out@;
    if clearable > 0 {
        unit.base.just_cleared_lines = true;
        unit.base.state = State::LineClear { countdown: 0 };
        unit.base.lines_cleared = unit.base.lines_cleared + clearable;
        match &mut unit.base.mode {
            Mode::Marathon { level, lines_before_next_level, .. } => {
                let level_changed = update_level(level, lines_before_next_level, clearable);
                if level_changed {
                    unit.base.just_changed_level = true;
                }
            },
            Mode::Versus { target_unit_id, .. } => {
                if local {
                    out.push((*target_unit_id, UnitCommandKind::SendLines(sendable)));
                }
            },
            _ => {},
        }
    }
    proof {
        assert(out@.len() >= adds.len());
        assert(forall|i: int| 0 <= i < adds.len() ==> out@[i] == adds[i]);
    }
    out
}

} // verus!

verus! {

/// Clears the full rows (see `try_clear_lines`), ends the line clear
/// animation flags, and wins a marathon whose level reached its target or a
/// sprint whose line count reached its target.
pub fn clear_lines(base: &mut Base)
    ensures
        well_shape(final(base).well) == well_shape(old(base).well),
        forall|x: int, y: int| crate::well::in_bounds(old(base).well, x, y) ==> #[trigger] cell(final(base).well, x, y) == crate::game::cleared_cell(old(base).well, x, y),
        final(base).animate_line@ == Seq::new(old(base).animate_line@.len(), |i: int| false),
        ({
            let won = match old(base).mode {
                Mode::Marathon { level, level_target, .. } => level >= level_target,
                Mode::Sprint { lines_cleared_target } => old(base).lines_cleared >= lines_cleared_target,
                _ => false,
            };
            let b = Base { well: final(base).well, animate_line: final(base).animate_line, ..*old(base) };
            if won {
                *final(base) == (Base { state: State::Win, just_won: old(base).just_won || !(old(base).state is Win), ..b })
            } else {
                *final(base) == b
            }
        }),
{
    let ghost b0 = *base;
    let n = base.animate_line.len();
    let mut i: usize = 0;
    while i < n
        invariant
            0 <= i <= n,
            n == b0.animate_line@.len(),
            *base == (Base { animate_line: base.animate_line, ..b0 }),
            base.animate_line@.len() == n,
            forall|j: int| 0 <= j < i ==> #[trigger] base.animate_line@[j] == false,
        decreases n - i,
    {
        base.animate_line.set(i, false);
        i = i + 1;
    }
    assert(base.animate_line@ =~= Seq::new(n as nat, |i: int| false));
    crate::game::try_clear_lines(&mut base.well);
    let won = match &base.mode {
        Mode::Marathon { level, level_target, .. } => *level >= *level_target,
        Mode::Sprint { lines_cleared_target } => base.lines_cleared >= *lines_cleared_target,
        _ => false,
    };
    if won {
        base.win();
    }
}

/// The cell at `(x, y)` is inside the well and filled.
pub open spec fn alive(w: Well, x: int, y: int) -> bool {
    0 <= x < width(w) && 0 <= y < height(w) && cell(w, x, y) is Some
}

/// How many of the four cells beside `(x, y)` (above, left, below, right)
/// are filled.
pub open spec fn neighbours(w: Well, x: int, y: int) -> int {
    (if alive(w, x, y - 1) { 1int } else { 0int }) + (if alive(w, x - 1, y) { 1int } else { 0int }) + (if alive(
        w,
        x,
        y + 1,
    ) { 1int } else { 0int }) + (if alive(w, x + 1, y) { 1int } else { 0int })
}

/// The cell at `(x, y)` after a life step: a filled cell survives with
/// exactly three filled neighbours, an empty one is born (blue) with exactly
/// three, and every other cell becomes empty.
pub open spec fn life_cell(w: Well, x: int, y: int) -> Option<Data> {
    if neighbours(w, x, y) == 3 {
        if cell(w, x, y) is Some { cell(w, x, y) } else { Some(data_at(1, 1)) }
    } else {
        None
    }
}

/// The rule of a life step (what `game_of_life` does to the well every
/// fourth step), cell by cell: afterwards a cell is filled exactly when three
/// of the four cells beside it (above, left, below, right; cells outside the
/// well count as empty) were filled. A filled cell that stays filled keeps its
/// block, and an empty cell that fills gets a blue block.
pub proof fn life_step_rule(w0: Well, w1: Well)
    requires
        forall|x: int, y: int| crate::well::in_bounds(w0, x, y) ==> #[trigger] cell(w1, x, y) == life_cell(w0, x, y),
    ensures
        forall|x: int, y: int| #![trigger cell(w1, x, y)] crate::well::in_bounds(w0, x, y) ==> {
            let up = 0 <= y - 1 && cell(w0, x, y - 1) is Some;
            let left = 0 <= x - 1 && cell(w0, x - 1, y) is Some;
            let down = y + 1 < height(w0) && cell(w0, x, y + 1) is Some;
            let right = x + 1 < width(w0) && cell(w0, x + 1, y) is Some;
            let count = (if up { 1int } else { 0int }) + (if left { 1int } else { 0int }) + (if down { 1int } else { 0int })
                + (if right { 1int } else { 0int });
            &&& (cell(w1, x, y) is Some <==> count == 3)
            &&& (cell(w0, x, y) is Some && cell(w1, x, y) is Some ==> cell(w1, x, y) == cell(w0, x, y))
            &&& (cell(w0, x, y) is None && cell(w1, x, y) is Some ==> cell(w1, x, y) == Some(data_at(1, 1)))
        },
{
    assert forall|x: int, y: int| #![trigger cell(w1, x, y)] crate::well::in_bounds(w0, x, y) implies {
        let up = 0 <= y - 1 && cell(w0, x, y - 1) is Some;
        let left = 0 <= x - 1 && cell(w0, x - 1, y) is Some;
        let down = y + 1 < height(w0) && cell(w0, x, y + 1) is Some;
        let right = x + 1 < width(w0) && cell(w0, x + 1, y) is Some;
        let count = (if up { 1int } else { 0int }) + (if left { 1int } else { 0int }) + (if down { 1int } else { 0int })
            + (if right { 1int } else { 0int });
        &&& (cell(w1, x, y) is Some <==> count == 3)
        &&& (cell(w0, x, y) is Some && cell(w1, x, y) is Some ==> cell(w1, x, y) == cell(w0, x, y))
        &&& (cell(w0, x, y) is None && cell(w1, x, y) is Some ==> cell(w1, x, y) == Some(data_at(1, 1)))
    } by {
        assert(cell(w1, x, y) == life_cell(w0, x, y));
        assert(crate::well::in_bounds(w0, x, y));
    }
}

fn alive_at(w: &Well, x: i32, y: i32) -> (r: bool)
    ensures
        r == alive(*w, x as int, y as int),
{
    if x < 0 || y < 0 {
        return false;
    }
    match crate::well::well_get(w, x as usize, y as usize) {
        Some(c) => c.is_some(),
        None => false,
    }
}

/// One life step of the whole well: a new well of the same shape with every
/// cell as `life_cell` gives it.
fn life_step(w: &Well) -> (r: Well)
    requires
        well_ok(*w),
    ensures
        well_shape(r) == well_shape(*w),
        forall|x: int, y: int| crate::well::in_bounds(*w, x, y) ==> #[trigger] cell(r, x, y) == life_cell(*w, x, y),
{
    let wd = well_width(w);
    let h = crate::well::well_height(w);
    let mut new_well = crate::well::empty_well(wd, h);
    let mut x: usize = 0;
    while x < wd
        invariant
            0 <= x <= wd,
            wd == width(*w),
            h == height(*w),
            well_ok(*w),
            well_shape(new_well) == well_shape(*w),
            forall|x1: int, y1: int| 0 <= x1 < x && 0 <= y1 < h ==> #[trigger] cell(new_well, x1, y1) == life_cell(*w, x1, y1),
            forall|x1: int, y1: int| x <= x1 < wd && 0 <= y1 < h ==> (#[trigger] cell(new_well, x1, y1)) is None,
        decreases wd - x,
    {
        let mut y: usize = 0;
        while y < h
            invariant
                0 <= x < wd,
                0 <= y <= h,
                wd == width(*w),
                h == height(*w),
                well_ok(*w),
                well_shape(new_well) == well_shape(*w),
                forall|x1: int, y1: int| 0 <= x1 < x && 0 <= y1 < h ==> #[trigger] cell(new_well, x1, y1) == life_cell(*w, x1, y1),
                forall|y1: int| 0 <= y1 < y ==> #[trigger] cell(new_well, x as int, y1) == life_cell(*w, x as int, y1),
                forall|x1: int, y1: int| (x < x1 < wd && 0 <= y1 < h) || (x1 == x && y <= y1 < h) ==> (#[trigger] cell(new_well, x1, y1)) is None,
            decreases h - y,
        {
            let xi = x as i32;
            let yi = y as i32;
            let mut count: i32 = 0;
            if alive_at(w, xi, yi - 1) {
                count = count + 1;
            }
            if alive_at(w, xi - 1, yi) {
                count = count + 1;
            }
            if alive_at(w, xi, yi + 1) {
                count = count + 1;
            }
            if alive_at(w, xi + 1, yi) {
                count = count + 1;
            }
            let block = crate::well::well_at(w, x, y);
            let next = if block.is_some() {
                if count == 3 { block } else { None }
            } else {
                if count == 3 { Some(Data::blue()) } else { None }
            };
            crate::well::well_put(&mut new_well, x, y, next);
            y = y + 1;
        }
        x = x + 1;
    }
    new_well
}

/// Advances a game of life: the step counter goes up by one, and every
/// fourth step the well takes a life step.
pub fn game_of_life(base: &mut Base)
    requires
        well_ok(old(base).well),
        old(base).mode matches Mode::GameOfLife { count } ==> count < u32::MAX,
    ensures
        match old(base).mode {
            Mode::GameOfLife { count } => {
                &&& final(base).mode == (Mode::GameOfLife { count: (count + 1) as u32 })
                &&& *final(base) == (Base { mode: final(base).mode, well: final(base).well, ..*old(base) })
                &&& well_shape(final(base).well) == well_shape(old(base).well)
                &&& (count + 1) % 4 == 0 ==> forall|x: int, y: int| crate::well::in_bounds(old(base).well, x, y) ==> #[trigger] cell(final(base).well, x, y) == life_cell(old(base).well, x, y)
                &&& (count + 1) % 4 != 0 ==> final(base).well == old(base).well
            },
            _ => *final(base) == *old(base),
        },
{
    let mut step = false;
    match &mut base.mode {
        Mode::GameOfLife { count } => {
            *count = *count + 1;
            step = *count % 4 == 0;
        },
        _ => {},
    }
    if step {
        base.well = life_step(&base.well);
    }
}

} // verus!

verus! {

/// The cell at `(x, y)` after `lines` garbage lines come in with the gap in
/// column `gap`: every row moves up by `lines` (the top ones are lost) and
/// the bottom `lines` rows are filled with garbage except at the gap.
pub open spec fn garbage_cell(w: Well, lines: int, gap: int, x: int, y: int) -> Option<Data> {
    if y < height(w) - lines {
        cell(w, x, y + lines)
    } else if x != gap {
        Some(data_at(3, 0))
    } else {
        None
    }
}

/// Adds `lines` garbage lines with the gap in column `gap` (see
/// `garbage_cell`); in a versus game the lines are taken off the count of
/// lines waiting.
pub fn add_lines(base: &mut Base, lines: usize, gap: usize)
    requires
        well_ok(old(base).well),
        lines <= height(old(base).well),
        old(base).mode matches Mode::Versus { lines_received_sum, .. } ==> lines_received_sum >= lines,
    ensures
        well_shape(final(base).well) == well_shape(old(base).well),
        lines == 0 ==> final(base).well == old(base).well,
        lines > 0 ==> forall|x: int, y: int| crate::well::in_bounds(old(base).well, x, y) ==> #[trigger] cell(final(base).well, x, y) == garbage_cell(old(base).well, lines as int, gap as int, x, y),
        match old(base).mode {
            Mode::Versus { lines_received, lines_received_sum, target_unit_id } => final(base).mode matches Mode::Versus { lines_received: r1, lines_received_sum: s1, target_unit_id: t1 }
                && r1 == lines_received && s1 == lines_received_sum - lines && t1 == target_unit_id,
            _ => final(base).mode == old(base).mode,
        },
        *final(base) == (Base { mode: final(base).mode, well: final(base).well, ..*old(base) }),
{
    match &mut base.mode {
        Mode::Versus { lines_received_sum, .. } => {
            *lines_received_sum = *lines_received_sum - lines;
        },
        _ => {},
    }
    if lines == 0 {
        return;
    }
    let ghost w0 = base.well;
    let ghost b1 = *base;
    let h = crate::well::well_height(&base.well);
    let wd = well_width(&base.well);
    let mut y: usize = 0;
    while y < h
        invariant
            0 <= y <= h,
            0 < lines <= h,
            h == height(w0),
            wd == width(w0),
            well_ok(w0),
            *base == (Base { well: base.well, ..b1 }),
            well_shape(base.well) == well_shape(w0),
            forall|x: int, t: int| 0 <= x < wd && 0 <= t < h ==> #[trigger] cell(base.well, x, t) == if t + lines < y {
                garbage_cell(w0, lines as int, gap as int, x, t)
            } else if t < y {
                if t >= h - lines && x != gap { Some(data_at(3, 0)) } else { None::<Data> }
            } else {
                cell(w0, x, t)
            },
        decreases h - y,
    {
        let ghost w1 = base.well;
        let mut x: usize = 0;
        while x < wd
            invariant
                0 <= x <= wd,
                y < h,
                0 < lines <= h,
                h == height(w0),
                wd == width(w0),
                *base == (Base { well: base.well, ..b1 }),
                well_shape(base.well) == well_shape(w0),
                forall|x1: int| 0 <= x1 < wd ==> #[trigger] cell(w1, x1, y as int) == cell(w0, x1, y as int),
                forall|x1: int, t: int| 0 <= x1 < wd && 0 <= t < h ==> #[trigger] cell(base.well, x1, t) == if x1 < x && t == y {
                    if t >= h - lines && x1 != gap { Some(data_at(3, 0)) } else { None::<Data> }
                } else if x1 < x && t + lines == y && cell(w0, x1, y as int) is Some {
                    cell(w0, x1, y as int)
                } else {
                    cell(w1, x1, t)
                },
            decreases wd - x,
        {
            let c = crate::well::well_at(&base.well, x, y);
            if c.is_some() {
                if y >= lines {
                    crate::well::well_put(&mut base.well, x, y - lines, c);
                }
            }
            let v = if y >= h - lines && x != gap { Some(Data::gray()) } else { None };
            crate::well::well_put(&mut base.well, x, y, v);
            x = x + 1;
        }
        y = y + 1;
    }
}

/// Queues `lines` received lines in a versus game; other modes ignore them.
pub fn send_lines(base: &mut Base, lines: usize)
    requires
        old(base).mode matches Mode::Versus { lines_received_sum, .. } ==> lines_received_sum + lines <= usize::MAX,
    ensures
        match old(base).mode {
            Mode::Versus { lines_received, lines_received_sum, target_unit_id } => final(base).mode matches Mode::Versus { lines_received: r1, lines_received_sum: s1, target_unit_id: t1 }
                && r1@ == lines_received@.push(lines) && s1 == lines_received_sum + lines && t1 == target_unit_id,
            _ => final(base).mode == old(base).mode,
        },
        *final(base) == (Base { mode: final(base).mode, ..*old(base) }),
{
    match &mut base.mode {
        Mode::Versus { lines_received, lines_received_sum, .. } => {
            lines_received.push_back(lines);
            *lines_received_sum = *lines_received_sum + lines;
        },
        _ => {},
    }
}

} // verus!

verus! {

/// The unit after storing the falling piece (when storing is allowed and a
/// piece is falling): the piece, turned back and moved to the corner, is
/// stored; the previously stored piece, if any, becomes the falling piece,
/// centred; otherwise a local player asks for the next piece. Storing is
/// then not allowed until a piece lands.
pub open spec fn store_outcome(u0: Unit, u1: Unit, uid: usize, out: Seq<UnitCommandInner>) -> bool {
    let b0 = u0.base;
    let b1 = u1.base;
    let w = b0.well;
    if !b0.can_store_mino {
        u1 == u0 && out.len() == 0
    } else {
        match b0.falling_mino {
            None => u1.base == (Base { can_store_mino: false, ..b0 }) && u1.kind == u0.kind && out.len() == 0,
            Some(f) => {
                &&& b1.stored_mino == Some(crate::game::reset_of(f))
                &&& match b0.stored_mino {
                    Some(s) => {
                        &&& b1 == (Base {
                            can_store_mino: false,
                            stored_mino: b1.stored_mino,
                            falling_mino: Some(s.moved(center_shift(s, w), 0)),
                            just_changed_mino: true,
                            ..b0
                        })
                        &&& u1.kind == u0.kind
                        &&& out.len() == 0
                    },
                    None => {
                        &&& b1 == (Base { can_store_mino: false, stored_mino: b1.stored_mino, falling_mino: None, ..b0 })
                        &&& match u0.kind {
                            Kind::Network => u1.kind is Network && out.len() == 0,
                            Kind::Local { rng, mino_controller } => u1.kind matches Kind::Local { rng: r1, mino_controller: mc1 }
                                && mc1 == mino_controller && queue_advanced(rng, r1) && out == seq![
                                (uid, UnitCommandKind::NextMino(rng.queue@[0].moved(center_shift(rng.queue@[0], w), 0))),
                            ],
                        }
                    },
                }
            },
        }
    }
}

/// Stores the falling piece (see `store_outcome`).
pub fn store(unit: &mut Unit, unit_id: usize) -> (out: Vec<UnitCommandInner>)
    requires
        unit_ok(*old(unit)),
        old(unit).base.falling_mino matches Some(m) ==> mino_ok(m),
        old(unit).base.stored_mino matches Some(m) ==> mino_ok(m),
    ensures
        unit_ok(*final(unit)),
        store_outcome(*old(unit), *final(unit), unit_id, out@),
        final(unit).base.stored_mino matches Some(m) ==> mino_ok(m),
{
    let ghost u0 = *unit;
    let mut out: Vec<UnitCommandInner> = Vec::new();
    if unit.base.can_store_mino {
        unit.base.can_store_mino = false;
        match unit.base.falling_mino.take() {
            Some(f) => {
                let mut f = f;
                proof {
                    crate::game::lemma_reset_ok(f);
                }
                crate::game::reset_mino(&mut f);
                match unit.base.stored_mino.take() {
                    Some(s) => {
                        let mut s = s;
                        unit.base.just_changed_mino = true;
                        proof {
                            lemma_ok_moves_fit(s, unit.base.well);
                        }
                        crate::game::center_mino(&mut s, &unit.base.well);
                        unit.base.falling_mino = Some(s);
                    },
                    None => {
                        match &mut unit.kind {
                            Kind::Local { rng, .. } => {
                                let next = rng.next_mino_centered(&unit.base.well);
                                out.push((unit_id, UnitCommandKind::NextMino(next)));
                                assert(out@ =~= seq![(unit_id, UnitCommandKind::NextMino(next))]);
                            },
                            Kind::Network => {},
                        }
                    },
                }
                unit.base.stored_mino = Some(f);
            },
            None => {},
        }
    }
    out
}

/// Makes `mino` the falling piece.
pub fn next_mino(base: &mut Base, mino: Mino)
    ensures
        *final(base) == (Base { falling_mino: Some(mino), just_changed_mino: true, ..*old(base) }),
{
    base.just_changed_mino = true;
    base.falling_mino = Some(mino);
}

/// Starts the life step animation.
pub fn pre_game_of_life(base: &mut Base)
    ensures
        *final(base) == (Base { state: State::GameOfLife { countdown: 0 }, ..*old(base) }),
{
    base.state = State::GameOfLife { countdown: 0 };
}

} // verus!

verus! {

/// What a unit command needs of the unit to run without a panic or an
/// overflow.
pub open spec fn command_ready(u: Unit, k: UnitCommandKind) -> bool {
    &&& unit_ok(u)
    &&& match k {
        UnitCommandKind::MoveLeft | UnitCommandKind::MoveRight | UnitCommandKind::RotateLeft
        | UnitCommandKind::RotateRight => u.base.falling_mino matches Some(m) ==> mino_ok(m),
        UnitCommandKind::ApplyGravity(_) => u.base.falling_mino matches Some(m) ==> mino_ok(m) && in_well_bounds(
            m,
            u.base.well,
        ),
        UnitCommandKind::Store => (u.base.falling_mino matches Some(m) ==> mino_ok(m)) && (
        u.base.stored_mino matches Some(m) ==> mino_ok(m)),
        UnitCommandKind::PreClearLines => pre_clear_ok(u),
        UnitCommandKind::GameOfLife => u.base.mode matches Mode::GameOfLife { count } ==> count < u32::MAX,
        UnitCommandKind::SendLines(l) => u.base.mode matches Mode::Versus { lines_received_sum, .. }
            ==> lines_received_sum + l <= usize::MAX,
        UnitCommandKind::AddLines(l, _) => l <= height(u.base.well) && (u.base.mode matches Mode::Versus {
            lines_received_sum,
            ..
        } ==> lines_received_sum >= l),
        _ => true,
    }
}

/// The move a move command makes.
pub open spec fn move_of(k: UnitCommandKind) -> MinoMove {
    match k {
        UnitCommandKind::MoveLeft => MinoMove::Left,
        UnitCommandKind::MoveRight => MinoMove::Right,
        UnitCommandKind::RotateLeft => MinoMove::RotateLeft,
        _ => MinoMove::RotateRight,
    }
}

/// Unit `u0` became `u1` by executing command `k` as unit `uid`, asking for
/// the commands `out` (each addressed to a unit).
pub open spec fn executed(u0: Unit, u1: Unit, uid: usize, k: UnitCommandKind, out: Seq<UnitCommandInner>) -> bool {
    let b0 = u0.base;
    let b1 = u1.base;
    match k {
        UnitCommandKind::MoveLeft | UnitCommandKind::MoveRight | UnitCommandKind::RotateLeft
        | UnitCommandKind::RotateRight => b1 == (Base {
            falling_mino: moved_falling(b0.falling_mino, b0.well, move_of(k)),
            ..b0
        }) && u1.kind == u0.kind && out.len() == 0,
        UnitCommandKind::ApplyGravity(g) => match b0.falling_mino {
            None => u1 == u0 && out.len() == 0,
            Some(m) => exists|n: int|
                #![trigger m.moved(0, n)]
                fall_distance(m, b0.well, g as int, n) && gravity_outcome(u0, u1, uid, m.moved(0, n), g > 0 && n < g, out),
        },
        UnitCommandKind::PreClearLines => pre_clear_outcome(u0, u1, uid, out),
        UnitCommandKind::ClearLines => {
            let won = match b0.mode {
                Mode::Marathon { level, level_target, .. } => level >= level_target,
                Mode::Sprint { lines_cleared_target } => b0.lines_cleared >= lines_cleared_target,
                _ => false,
            };
            let b = Base { well: b1.well, animate_line: b1.animate_line, ..b0 };
            &&& well_shape(b1.well) == well_shape(b0.well)
            &&& forall|x: int, y: int| crate::well::in_bounds(b0.well, x, y) ==> #[trigger] cell(b1.well, x, y) == crate::game::cleared_cell(b0.well, x, y)
            &&& b1.animate_line@ == Seq::new(b0.animate_line@.len(), |i: int| false)
            &&& (won ==> b1 == (Base { state: State::Win, just_won: b0.just_won || !(b0.state is Win), ..b }))
            &&& (!won ==> b1 == b)
            &&& u1.kind == u0.kind
            &&& out.len() == 0
        },
        UnitCommandKind::PreGameOfLife => b1 == (Base { state: State::GameOfLife { countdown: 0 }, ..b0 }) && u1.kind
            == u0.kind && out.len() == 0,
        UnitCommandKind::GameOfLife => {
            &&& u1.kind == u0.kind
            &&& out.len() == 0
            &&& match b0.mode {
                Mode::GameOfLife { count } => {
                    &&& b1.mode == (Mode::GameOfLife { count: (count + 1) as u32 })
                    &&& b1 == (Base { mode: b1.mode, well: b1.well, ..b0 })
                    &&& well_shape(b1.well) == well_shape(b0.well)
                    &&& (count + 1) % 4 == 0 ==> forall|x: int, y: int| crate::well::in_bounds(b0.well, x, y) ==> #[trigger] cell(b1.well, x, y) == life_cell(b0.well, x, y)
                    &&& (count + 1) % 4 != 0 ==> b1.well == b0.well
                },
                _ => b1 == b0,
            }
        },
        UnitCommandKind::Store => store_outcome(u0, u1, uid, out),
        UnitCommandKind::NextMino(m) => b1 == (Base { falling_mino: Some(m), just_changed_mino: true, ..b0 }) && u1.kind
            == u0.kind && out.len() == 0,
        UnitCommandKind::SendLines(l) => {
            &&& u1.kind == u0.kind
            &&& out.len() == 0
            &&& b1 == (Base { mode: b1.mode, ..b0 })
            &&& match b0.mode {
                Mode::Versus { lines_received, lines_received_sum, target_unit_id } => b1.mode matches Mode::Versus { lines_received: r1, lines_received_sum: s1, target_unit_id: t1 }
                    && r1@ == lines_received@.push(l) && s1 == lines_received_sum + l && t1 == target_unit_id,
                _ => b1.mode == b0.mode,
            }
        },
        UnitCommandKind::AddLines(l, gap) => {
            &&& u1.kind == u0.kind
            &&& out.len() == 0
            &&& b1 == (Base { mode: b1.mode, well: b1.well, ..b0 })
            &&& well_shape(b1.well) == well_shape(b0.well)
            &&& l == 0 ==> b1.well == b0.well
            &&& l > 0 ==> forall|x: int, y: int| crate::well::in_bounds(b0.well, x, y) ==> #[trigger] cell(b1.well, x, y) == garbage_cell(b0.well, l as int, gap as int, x, y)
            &&& match b0.mode {
                Mode::Versus { lines_received, lines_received_sum, target_unit_id } => b1.mode matches Mode::Versus { lines_received: r1, lines_received_sum: s1, target_unit_id: t1 }
                    && r1 == lines_received && s1 == lines_received_sum - l && t1 == target_unit_id,
                _ => b1.mode == b0.mode,
            }
        },
    }
}

/// Executes a unit command on the unit it is addressed to; gives the
/// commands it asks for in turn (see `executed`).
pub fn execute_unit_command(cmd: UnitCommandInner, unit: &mut Unit) -> (out: Vec<UnitCommandInner>)
    requires
        command_ready(*old(unit), cmd.1),
    ensures
        executed(*old(unit), *final(unit), cmd.0, cmd.1, out@),
{
    let (unit_id, kind) = cmd;
    match kind {
        UnitCommandKind::MoveLeft => {
            move_falling(&mut unit.base, MinoMove::Left);
            Vec::new()
        },
        UnitCommandKind::MoveRight => {
            move_falling(&mut unit.base, MinoMove::Right);
            Vec::new()
        },
        UnitCommandKind::RotateLeft => {
            move_falling(&mut unit.base, MinoMove::RotateLeft);
            Vec::new()
        },
        UnitCommandKind::RotateRight => {
            move_falling(&mut unit.base, MinoMove::RotateRight);
            Vec::new()
        },
        UnitCommandKind::ApplyGravity(g) => apply_gravity(unit, unit_id, g),
        UnitCommandKind::PreClearLines => pre_clear_lines(unit, unit_id),
        UnitCommandKind::ClearLines => {
            clear_lines(&mut unit.base);
            Vec::new()
        },
        UnitCommandKind::PreGameOfLife => {
            pre_game_of_life(&mut unit.base);
            Vec::new()
        },
        UnitCommandKind::GameOfLife => {
            game_of_life(&mut unit.base);
            Vec::new()
        },
        UnitCommandKind::Store => store(unit, unit_id),
        UnitCommandKind::NextMino(m) => {
            next_mino(&mut unit.base, m);
            Vec::new()
        },
        UnitCommandKind::SendLines(lines) => {
            send_lines(&mut unit.base, lines);
            Vec::new()
        },
        UnitCommandKind::AddLines(lines, gap) => {
            add_lines(&mut unit.base, lines, gap);
            Vec::new()
        },
    }
}

} // verus!

verus! {

/// The commands `inner` wrapped with the flag `original`.
pub open spec fn wrap_with(inner: Seq<UnitCommandInner>, original: bool) -> Seq<UnitCommand> {
    Seq::new(inner.len(), |i: int| CommandWrapper { inner: inner[i], original })
}

impl CommandWrapper<UnitCommandInner> {
    /// Executes the wrapped unit command; the commands it asks for carry the
    /// same `original` flag. (Sending an original command to the other
    /// players is left to the caller.)
    pub fn execute(self, unit: &mut Unit) -> (out: Vec<UnitCommand>)
        requires
            command_ready(*old(unit), self.inner.1),
        ensures
            exists|inner: Seq<UnitCommandInner>|
                #![trigger wrap_with(inner, self.original)]
                executed(*old(unit), *final(unit), self.inner.0, self.inner.1, inner) && out@ == wrap_with(inner, self.original),
    {
        let original = self.original;
        let inner = execute_unit_command(self.inner, unit);
        let mut out: Vec<UnitCommand> = Vec::new();
        let mut i: usize = 0;
        while i < inner.len()
            invariant
                0 <= i <= inner@.len(),
                out@ == wrap_with(inner@.take(i as int), original),
            decreases inner@.len() - i,
        {
            out.push(CommandWrapper { inner: inner[i], original });
            i = i + 1;
            assert(out@ =~= wrap_with(inner@.take(i as int), original));
        }
        assert(inner@.take(inner@.len() as int) =~= inner@);
        out
    }
}

} // verus!

verus! {

/// Falling, and laying the piece when it lands, keeps the unit in order.
proof fn lemma_gravity_keeps_ok(u0: Unit, u1: Unit, uid: usize, mf: Mino, landed: bool, out: Seq<UnitCommandInner>)
    requires
        unit_ok(u0),
        gravity_outcome(u0, u1, uid, mf, landed, out),
    ensures
        unit_ok(u1),
{
    reveal(gravity_outcome);
    if landed && mino_fits(mf, u0.base.well) {
        reveal(well_with);
        assert(well_shape(u1.base.well) == well_shape(u0.base.well));
        match u0.kind {
            Kind::Local { rng, .. } => {
                assert(u1.kind is Local);
                assert(queue_advanced(rng, u1.kind->rng));
            },
            Kind::Network => {},
        }
    } else {
        assert(u1.base.well == u0.base.well);
        assert(u1.kind == u0.kind);
    }
}

/// Every unit command keeps the unit in order: a unit that was ready for a
/// command is still well formed (`unit_ok`) after it, whatever the command.
#[verifier::spinoff_prover]
pub proof fn commands_keep_units_ok(
    u0: Unit,
    u1: Unit,
    uid: usize,
    k: UnitCommandKind,
    out: Seq<UnitCommandInner>,
)
    requires
        command_ready(u0, k),
        executed(u0, u1, uid, k, out),
    ensures
        unit_ok(u1),
{
    match k {
        UnitCommandKind::ApplyGravity(g) => {
            match u0.base.falling_mino {
                Some(m) => {
                    let n = choose|n: int|
                        #![trigger m.moved(0, n)]
                        fall_distance(m, u0.base.well, g as int, n) && gravity_outcome(
                            u0,
                            u1,
                            uid,
                            m.moved(0, n),
                            g > 0 && n < g,
                            out,
                        );
                    lemma_gravity_keeps_ok(u0, u1, uid, m.moved(0, n), g > 0 && n < g, out);
                },
                None => {},
            }
        },
        _ => {},
    }
}

} // verus!
