use vstd::prelude::*;

use rand::rngs::SmallRng;
use rand::Rng;
use rand::SeedableRng;

use crate::game::{center_fits, center_mino, center_shift, size_x};
use crate::mino::{kind_blocks, Mino};
use crate::well::{well_ok, Well};

verus! {

#[verifier::external_type_specification]
#[verifier::external_body]
pub struct ExSmallRng(rand::rngs::SmallRng);

/// `rand::Rng::gen_range` over `0..n`: some number below `n`; which one is
/// left to chance. The call panics on an empty range, so `n` must be positive.
#[verifier::external_body]
fn gen_below(rng: &mut SmallRng, n: usize) -> (r: usize)
    requires
        n > 0,
    ensures
        r < n,
{
    rng.gen_range(0..n)
}

/// `rand::SeedableRng::seed_from_u64` on `SmallRng`: a generator whose state
/// is made from `seed` alone. The state is opaque, so nothing is stated of it.
#[verifier::external_body]
fn small_rng_seeded(seed: u64) -> SmallRng {
    SmallRng::seed_from_u64(seed)
}

/// `rand::Rng::gen::<usize>`: any `usize`, drawn from the generator; which
/// one is left to chance, so nothing is stated of it.
#[verifier::external_body]
fn gen_usize(rng: &mut SmallRng) -> usize {
    rng.gen::<usize>()
}

/// Where new pieces come from.
pub enum MinoRng {
    /// Each piece is drawn independently.
    _Hard { rng: SmallRng },
    /// Pieces come in shuffled bags of all seven kinds; `stack` holds what is
    /// left of the current bag, the next piece last.
    Fair { rng: SmallRng, stack: Vec<Mino> },
}

/// The pieces left in the bag of a fair generator (none for a hard one).
pub open spec fn stack_of(r: MinoRng) -> Seq<Mino> {
    match r {
        MinoRng::_Hard { .. } => Seq::empty(),
        MinoRng::Fair { stack, .. } => stack@,
    }
}

/// `s` lists each of the seven kinds exactly once.
pub open spec fn is_perm7(s: Seq<int>) -> bool {
    &&& s.len() == 7
    &&& forall|i: int| 0 <= i < 7 ==> 0 <= #[trigger] s[i] < 7
    &&& forall|i: int, j: int| 0 <= i < j < 7 ==> #[trigger] s[i] != #[trigger] s[j]
}

/// `m` is a fresh piece of one of the seven kinds.
pub open spec fn is_some_piece(m: Mino) -> bool {
    exists|k: int| 0 <= k < 7 && #[trigger] m.is_piece(k)
}

/// The kinds of a bag as it is filled, before shuffling: l, j, o, z, s, t, i.
pub open spec fn unshuffled_kinds() -> Seq<int> {
    seq![0int, 1int, 2int, 3int, 4int, 5int, 6int]
}

/// Draws that shuffle a bag of seven: the `i`-th is below `7 - i`.
pub open spec fn valid_draws(d: Seq<usize>) -> bool {
    &&& d.len() == 6
    &&& forall|i: int| 0 <= i < 6 ==> #[trigger] d[i] < 7 - i
}

/// `s` after the swaps that `d` asks for, in order: the `i`-th swaps the
/// items at `i` and `i + d[i]`.
pub open spec fn swapped<A>(s: Seq<A>, d: Seq<usize>) -> Seq<A>
    decreases d.len(),
{
    if d.len() == 0 {
        s
    } else {
        let t = swapped(s, d.drop_last());
        let i = d.len() - 1;
        let j = i + d.last();
        t.update(i, t[j]).update(j, t[i])
    }
}

/// The next piece of a bag, taken from its top (the end of `stack`). An
/// empty bag is first refilled with the seven kinds shuffled by some draws.
pub open spec fn bag_step(old_stack: Seq<Mino>, new_stack: Seq<Mino>, m: Mino) -> bool {
    if old_stack.len() > 0 {
        &&& m == old_stack.last()
        &&& new_stack == old_stack.drop_last()
    } else {
        exists|d: Seq<usize>|
            #![trigger swapped(unshuffled_kinds(), d)]
            valid_draws(d) && new_stack.len() == 6 && m.is_piece(swapped(unshuffled_kinds(), d)[6])
                && forall|i: int| 0 <= i < 6 ==> (#[trigger] new_stack[i]).is_piece(swapped(unshuffled_kinds(), d)[i])
    }
}

/// Swapping along valid draws keeps the length.
proof fn lemma_swapped_len<A>(s: Seq<A>, d: Seq<usize>)
    requires
        s.len() == 7,
        d.len() <= 6,
        forall|i: int| 0 <= i < d.len() ==> #[trigger] d[i] < 7 - i,
    ensures
        swapped(s, d).len() == 7,
    decreases d.len(),
{
    if d.len() > 0 {
        lemma_swapped_len(s, d.drop_last());
    }
}

/// Each bag holds each of the seven kinds exactly once, whatever the draws.
pub proof fn bag_holds_each_kind_once(d: Seq<usize>)
    requires
        valid_draws(d),
    ensures
        is_perm7(swapped(unshuffled_kinds(), d)),
{
    lemma_swaps_keep_perm(d);
}

/// `stacks[i]` is the bag before the `i`-th piece `ms[i]` is handed out and
/// `stacks[i + 1]` the bag after it: each step is a `bag_step`.
pub open spec fn bag_run(stacks: Seq<Seq<Mino>>, ms: Seq<Mino>) -> bool {
    &&& stacks.len() == ms.len() + 1
    &&& forall|i: int| 0 <= i < ms.len() ==> bag_step(stacks[i], stacks[i + 1], #[trigger] ms[i])
}

/// Within one bag, the `t`-th step after the refill at `j0` leaves the
/// first `7 - t` pieces of the refilled bag.
proof fn lemma_bag_drains(stacks: Seq<Seq<Mino>>, ms: Seq<Mino>, j0: int, t: int)
    requires
        bag_run(stacks, ms),
        0 <= j0,
        j0 + 7 <= ms.len(),
        stacks[j0 + 1].len() == 6,
        1 <= t <= 7,
    ensures
        stacks[j0 + t] == stacks[j0 + 1].take(7 - t),
    decreases t,
{
    if t == 1 {
        assert(stacks[j0 + 1].take(6) =~= stacks[j0 + 1]);
    } else {
        lemma_bag_drains(stacks, ms, j0, t - 1);
        let prev = stacks[j0 + t - 1];
        assert(prev.len() == 8 - t);
        assert(bag_step(stacks[j0 + t - 1], stacks[j0 + t], ms[j0 + t - 1]));
        assert(stacks[j0 + t] =~= stacks[j0 + 1].take(7 - t));
    }
}

/// The seven pieces handed out from an empty bag on are the seven kinds,
/// each once, and the bag is empty again after them.
proof fn lemma_one_bag(stacks: Seq<Seq<Mino>>, ms: Seq<Mino>, j0: int)
    requires
        bag_run(stacks, ms),
        0 <= j0,
        j0 + 7 <= ms.len(),
        stacks[j0].len() == 0,
    ensures
        stacks[j0 + 7].len() == 0,
        exists|p: Seq<int>| is_perm7(p) && forall|i: int| 0 <= i < 7 ==> (#[trigger] ms[j0 + i]).is_piece(p[i]),
{
    assert(bag_step(stacks[j0], stacks[j0 + 1], ms[j0]));
    let d = choose|d: Seq<usize>|
        #![trigger swapped(unshuffled_kinds(), d)]
        valid_draws(d) && stacks[j0 + 1].len() == 6 && ms[j0].is_piece(swapped(unshuffled_kinds(), d)[6])
            && forall|i: int| 0 <= i < 6 ==> (#[trigger] stacks[j0 + 1][i]).is_piece(swapped(unshuffled_kinds(), d)[i]);
    let k = swapped(unshuffled_kinds(), d);
    bag_holds_each_kind_once(d);
    let s1 = stacks[j0 + 1];
    lemma_bag_drains(stacks, ms, j0, 7);
    let p = Seq::new(7, |i: int| k[6 - i]);
    assert forall|i: int| 0 <= i < 7 implies (#[trigger] ms[j0 + i]).is_piece(p[i]) by {
        if i > 0 {
            lemma_bag_drains(stacks, ms, j0, i);
            assert(stacks[j0 + i] == s1.take(7 - i));
            assert(bag_step(stacks[j0 + i], stacks[j0 + i + 1], ms[j0 + i]));
            assert(ms[j0 + i] == s1[6 - i]);
            assert(s1[6 - i].is_piece(k[6 - i]));
        }
    }
    assert(is_perm7(p)) by {
        assert forall|i: int| 0 <= i < 7 implies 0 <= #[trigger] p[i] < 7 by {
            assert(p[i] == k[6 - i]);
        }
        assert forall|i: int, j: int| 0 <= i < j < 7 implies #[trigger] p[i] != #[trigger] p[j] by {
            assert(p[i] == k[6 - i] && p[j] == k[6 - j]);
            assert(k[6 - j] != k[6 - i]);
        }
    }
}

/// The bag is empty after every seventh piece.
proof fn lemma_bag_empty_every_seven(stacks: Seq<Seq<Mino>>, ms: Seq<Mino>, k: int)
    requires
        bag_run(stacks, ms),
        stacks[0].len() == 0,
        0 <= k,
        7 * k <= ms.len(),
    ensures
        stacks[7 * k].len() == 0,
    decreases k,
{
    if k > 0 {
        lemma_bag_empty_every_seven(stacks, ms, k - 1);
        lemma_one_bag(stacks, ms, 7 * (k - 1));
    }
}

/// A fair generator that starts with an empty bag (as `MinoRng::fair` makes
/// it) hands out, in calls `7k + 1` to `7k + 7` of `generate`, each of the
/// seven kinds exactly once: `ms` are the pieces handed out in order and
/// `stacks` the bags before and after each call.
pub proof fn every_seven_pieces_are_one_bag(stacks: Seq<Seq<Mino>>, ms: Seq<Mino>, k: int)
    requires
        bag_run(stacks, ms),
        stacks[0].len() == 0,
        0 <= k,
        7 * k + 7 <= ms.len(),
    ensures
        exists|p: Seq<int>| is_perm7(p) && forall|i: int| 0 <= i < 7 ==> (#[trigger] ms[7 * k + i]).is_piece(p[i]),
{
    lemma_bag_empty_every_seven(stacks, ms, k);
    lemma_one_bag(stacks, ms, 7 * k);
}

/// Swaps keep a permutation of the seven kinds.
proof fn lemma_swaps_keep_perm(d: Seq<usize>)
    requires
        d.len() <= 6,
        forall|i: int| 0 <= i < d.len() ==> #[trigger] d[i] < 7 - i,
    ensures
        is_perm7(swapped(unshuffled_kinds(), d)),
    decreases d.len(),
{
    if d.len() == 0 {
        let k = unshuffled_kinds();
        assert(k.len() == 7);
        assert forall|i: int| 0 <= i < 7 implies 0 <= #[trigger] k[i] < 7 by {}
        assert forall|i: int, j: int| 0 <= i < j < 7 implies #[trigger] k[i] != #[trigger] k[j] by {}
    } else {
        let p = d.drop_last();
        assert forall|i: int| 0 <= i < p.len() implies #[trigger] p[i] < 7 - i by {
            assert(p[i] == d[i]);
        }
        lemma_swaps_keep_perm(p);
        let t = swapped(unshuffled_kinds(), p);
        let a = d.len() - 1;
        let b = a + d.last();
        let r = t.update(a, t[b]).update(b, t[a]);
        assert(r == swapped(unshuffled_kinds(), d));
        assert forall|i: int| 0 <= i < 7 implies 0 <= #[trigger] r[i] < 7 by {}
        assert forall|i: int, j: int| 0 <= i < j < 7 implies #[trigger] r[i] != #[trigger] r[j] by {
            let si = if i == a { b } else if i == b { a } else { i };
            let sj = if j == a { b } else if j == b { a } else { j };
            assert(r[i] == t[si]);
            assert(r[j] == t[sj]);
            assert(si != sj);
            if si < sj {
                assert(t[si] != t[sj]);
            } else {
                assert(t[sj] != t[si]);
            }
        }
    }
}

/// Swapping a bag of pieces and the list of their kinds alike keeps each
/// piece matched with its kind.
proof fn lemma_swaps_keep_kinds(s: Seq<Mino>, d: Seq<usize>)
    requires
        s.len() == 7,
        forall|i: int| 0 <= i < 7 ==> (#[trigger] s[i]).is_piece(unshuffled_kinds()[i]),
        d.len() <= 6,
        forall|i: int| 0 <= i < d.len() ==> #[trigger] d[i] < 7 - i,
    ensures
        swapped(s, d).len() == 7,
        forall|i: int| 0 <= i < 7 ==> (#[trigger] swapped(s, d)[i]).is_piece(swapped(unshuffled_kinds(), d)[i]),
    decreases d.len(),
{
    lemma_swapped_len(s, d);
    lemma_swapped_len(unshuffled_kinds(), d);
    if d.len() > 0 {
        let p = d.drop_last();
        assert forall|i: int| 0 <= i < p.len() implies #[trigger] p[i] < 7 - i by {
            assert(p[i] == d[i]);
        }
        lemma_swaps_keep_kinds(s, p);
        lemma_swapped_len(s, p);
        lemma_swapped_len(unshuffled_kinds(), p);
        let t = swapped(s, p);
        let k = swapped(unshuffled_kinds(), p);
        assert forall|i: int| 0 <= i < 7 implies (#[trigger] swapped(s, d)[i]).is_piece(swapped(unshuffled_kinds(), d)[i]) by {
            let a = d.len() - 1;
            let b = a + d.last();
            let si = if i == b { a } else if i == a { b } else { i };
            assert(swapped(s, d)[i] == t[si]);
            assert(swapped(unshuffled_kinds(), d)[i] == k[si]);
            assert(t[si].is_piece(k[si]));
        }
    }
}

/// The fresh piece of kind `k`, in the order l, j, o, z, s, t, i.
pub fn mino_of_kind(k: usize) -> (m: Mino)
    requires
        k < 7,
    ensures
        m.is_piece(k as int),
        m.wf(),
{
    match k {
        0 => Mino::l(),
        1 => Mino::j(),
        2 => Mino::o(),
        3 => Mino::z(),
        4 => Mino::s(),
        5 => Mino::t(),
        _ => Mino::i(),
    }
}

/// `m` is a fresh piece of some kind moved to the middle of the well's width.
pub open spec fn is_centered_piece(m: Mino, w: Well) -> bool {
    exists|p: Mino| #![trigger is_some_piece(p)] is_some_piece(p) && m == p.moved(center_shift(p, w), 0)
}

/// A fresh piece is centred about its turning point.
pub proof fn lemma_piece_wf(m: Mino)
    requires
        is_some_piece(m),
    ensures
        m.wf(),
{
    let k = choose|k: int| 0 <= k < 7 && #[trigger] m.is_piece(k);
    assert(m.blocks[0].x == kind_blocks(k)[0].0 && m.blocks[0].y == kind_blocks(k)[0].1);
    assert(m.blocks[1].x == kind_blocks(k)[1].0 && m.blocks[1].y == kind_blocks(k)[1].1);
    assert(m.blocks[2].x == kind_blocks(k)[2].0 && m.blocks[2].y == kind_blocks(k)[2].1);
    assert(m.blocks[3].x == kind_blocks(k)[3].0 && m.blocks[3].y == kind_blocks(k)[3].1);
}

/// A fresh piece can be centred in any well whose sizes are in range.
pub proof fn lemma_piece_centers(m: Mino, w: Well)
    requires
        is_some_piece(m),
        well_ok(w),
    ensures
        center_fits(m, w),
{
    let k = choose|k: int| 0 <= k < 7 && #[trigger] m.is_piece(k);
    assert(m.is_piece(k));
    assert(m.blocks[0].x == kind_blocks(k)[0].0);
    assert(m.blocks[1].x == kind_blocks(k)[1].0);
    assert(m.blocks[2].x == kind_blocks(k)[2].0);
    assert(m.blocks[3].x == kind_blocks(k)[3].0);
    assert(m.blocks[0].y == kind_blocks(k)[0].1);
    assert(m.blocks[1].y == kind_blocks(k)[1].1);
    assert(m.blocks[2].y == kind_blocks(k)[2].1);
    assert(m.blocks[3].y == kind_blocks(k)[3].1);
    assert(0 <= size_x(m) <= 4);
}

impl MinoRng {
    /// Every piece left in the bag is a fresh piece.
    pub open spec fn wf(&self) -> bool {
        forall|j: int| 0 <= j < stack_of(*self).len() ==> is_some_piece(#[trigger] stack_of(*self)[j])
    }

    /// The next piece. A hard generator draws a kind at random. A fair one
    /// hands out the top of its bag; when the bag is empty it first fills it
    /// with all seven kinds in a random order (each kind exactly once).
    pub fn generate(&mut self) -> (m: Mino)
        requires
            old(self).wf(),
        ensures
            final(self).wf(),
            is_some_piece(m),
            m.wf(),
            *old(self) is _Hard ==> *final(self) is _Hard,
            *old(self) is Fair ==> *final(self) is Fair && bag_step(stack_of(*old(self)), stack_of(*final(self)), m),
    {
        let ghost s0 = stack_of(*self);
        match self {
            MinoRng::_Hard { rng } => {
                let k = gen_below(rng, 7);
                mino_of_kind(k)
            },
            MinoRng::Fair { rng, stack } => {
                if stack.len() == 0 {
                    let mut i: usize = 0;
                    while i < 7
                        invariant
                            0 <= i <= 7,
                            stack.len() == i,
                            forall|j: int| 0 <= j < i ==> (#[trigger] stack@[j]).is_piece(unshuffled_kinds()[j]),
                        decreases 7 - i,
                    {
                        stack.push(mino_of_kind(i));
                        i = i + 1;
                    }
                    let mut draws: [usize; 6] = [0; 6];
                    let mut i: usize = 0;
                    while i < 6
                        invariant
                            0 <= i <= 6,
                            forall|j: int| 0 <= j < i ==> #[trigger] draws@[j] < 7 - j,
                        decreases 6 - i,
                    {
                        draws[i] = gen_below(rng, 7 - i);
                        i = i + 1;
                    }
                    let ghost bag = stack@;
                    refill_bag(stack, &draws);
                    proof {
                        lemma_swaps_keep_kinds(bag, draws@);
                    }
                    let ghost kinds = swapped(unshuffled_kinds(), draws@);
                    let m = stack.pop();
                    match m {
                        Some(m) => {
                            assert(m.is_piece(kinds[6]));
                            assert(stack@.len() == 6);
                            proof {
                                bag_holds_each_kind_once(draws@);
                            }
                            assert forall|j: int| 0 <= j < stack@.len() implies is_some_piece(#[trigger] stack@[j]) by {
                                assert(stack@[j].is_piece(kinds[j]));
                            }
                            proof { lemma_piece_wf(m); }
                            m
                        },
                        None => {
                            assert(false);
                            Mino::i()
                        },
                    }
                } else {
                    assert(stack@ == s0);
                    assert(is_some_piece(s0[s0.len() - 1]));
                    let m = stack.pop();
                    match m {
                        Some(m) => {
                            proof { lemma_piece_wf(m); }
                            m
                        },
                        None => Mino::i(),
                    }
                }
            },
        }
    }

    /// The next piece, moved to the middle of the well's width.
    pub fn generate_centered(&mut self, well: &Well) -> (m: Mino)
        requires
            old(self).wf(),
            well_ok(*well),
        ensures
            final(self).wf(),
            is_centered_piece(m, *well),
            *old(self) is _Hard ==> *final(self) is _Hard,
            *old(self) is Fair ==> *final(self) is Fair && exists|p: Mino|
                #![trigger is_some_piece(p)]
                is_some_piece(p) && m == p.moved(center_shift(p, *well), 0) && bag_step(
                    stack_of(*old(self)),
                    stack_of(*final(self)),
                    p,
                ),
    {
        let mut mino = self.generate();
        proof {
            lemma_piece_centers(mino, *well);
        }
        center_mino(&mut mino, well);
        mino
    }

    /// A fair generator with an empty bag, its random state made from `seed`.
    pub fn fair(seed: u64) -> (r: MinoRng)
        ensures
            r.wf(),
            r is Fair,
            stack_of(r).len() == 0,
    {
        MinoRng::Fair { rng: small_rng_seeded(seed), stack: Vec::with_capacity(7) }
    }

    /// A number drawn at random from the generator; the bag is left alone.
    pub fn draw(&mut self) -> (r: usize)
        ensures
            stack_of(*final(self)) == stack_of(*old(self)),
            (*final(self) is Fair) == (*old(self) is Fair),
    {
        match self {
            MinoRng::_Hard { rng } => gen_usize(rng),
            MinoRng::Fair { rng, .. } => gen_usize(rng),
        }
    }
}

/// Shuffles a filled bag of seven: for each `i` below six in turn, swaps
/// the items at `i` and `i + draws[i]`.
pub fn refill_bag(stack: &mut Vec<Mino>, draws: &[usize; 6])
    requires
        old(stack)@.len() == 7,
        forall|i: int| 0 <= i < 6 ==> #[trigger] draws@[i] < 7 - i,
    ensures
        final(stack)@ == swapped(old(stack)@, draws@),
{
    let ghost s0 = stack@;
    let mut i: usize = 0;
    while i < 6
        invariant
            0 <= i <= 6,
            forall|k: int| 0 <= k < 6 ==> #[trigger] draws@[k] < 7 - k,
            stack@ == swapped(s0, draws@.take(i as int)),
            stack@.len() == 7,
        decreases 6 - i,
    {
        let j = i + draws[i];
        let a = stack[i];
        let b = stack[j];
        stack.set(i, b);
        stack.set(j, a);
        proof {
            let d = draws@.take(i as int + 1);
            assert(d.drop_last() =~= draws@.take(i as int));
            assert(d.last() == draws@[i as int]);
        }
        i = i + 1;
    }
    assert(draws@.take(6) =~= draws@);
}

} // verus!
