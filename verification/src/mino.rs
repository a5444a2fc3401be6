use vstd::prelude::*;

use crate::block::{data_at, Data};
use crate::vec2::{fits_i32, vec2, vec2i};

verus! {

/// A falling piece made of four blocks.
///
/// The piece turns about a centre that lies on the block grid or halfway
/// between grid lines; `origin2` holds that centre doubled, so that it is a
/// pair of integers. The centre of every piece has coordinates whose doubled
/// sum is even (see `wf`), which is what makes a quarter turn land every block
/// exactly on the grid.
#[derive(Clone, Copy, Debug)]
pub struct Mino {
    pub origin2: vec2i,
    pub rotation: i32,
    pub blocks: [vec2i; 4],
    pub blocks_data: [Data; 4],
}

/// Doubled coordinates of block `b` after a clockwise quarter turn about the
/// centre whose doubled coordinates are `o`: `2b' = rot90r(2b - o) + o`.
pub open spec fn rotr_x2(o: vec2i, b: vec2i) -> int {
    o.x + o.y - 2 * b.y
}

pub open spec fn rotr_y2(o: vec2i, b: vec2i) -> int {
    2 * b.x - o.x + o.y
}

/// Doubled coordinates of block `b` after a counter-clockwise quarter turn:
/// `2b' = rot90l(2b - o) + o`.
pub open spec fn rotl_x2(o: vec2i, b: vec2i) -> int {
    2 * b.y - o.y + o.x
}

pub open spec fn rotl_y2(o: vec2i, b: vec2i) -> int {
    o.x + o.y - 2 * b.x
}

/// Half of `n`, rounded half away from zero: what rounding a coordinate that
/// ends in one half gives.
pub open spec fn round_half(n: int) -> int {
    if n % 2 == 0 {
        n / 2
    } else if n > 0 {
        (n + 1) / 2
    } else {
        (n - 1) / 2
    }
}

/// Block `b` lies within two cells of the centre whose doubled coordinates are `o`.
pub open spec fn near_centre(o: vec2i, b: vec2i) -> bool {
    &&& -4 <= 2 * b.x - o.x <= 4
    &&& -4 <= 2 * b.y - o.y <= 4
}

/// Smallest x among the four blocks.
pub open spec fn min4(a: int, b: int, c: int, d: int) -> int {
    let ab = if a <= b { a } else { b };
    let cd = if c <= d { c } else { d };
    if ab <= cd { ab } else { cd }
}

pub open spec fn max4(a: int, b: int, c: int, d: int) -> int {
    let ab = if a >= b { a } else { b };
    let cd = if c >= d { c } else { d };
    if ab >= cd { ab } else { cd }
}

impl Mino {
    /// The centre of rotation lies on the grid or on the middle of a cell.
    pub open spec fn wf(&self) -> bool {
        &&& (self.origin2.x + self.origin2.y) % 2 == 0
        &&& forall|i: int| 0 <= i < 4 ==> near_centre(self.origin2, #[trigger] self.blocks[i])
    }

    /// Every block stays within `i32` after a clockwise turn.
    pub open spec fn rotr_fits(&self) -> bool {
        &&& forall|i: int| 0 <= i < 4 ==> fits_i32(
            round_half(#[trigger] rotr_x2(self.origin2, self.blocks[i])),
            round_half(rotr_y2(self.origin2, self.blocks[i])),
        )
    }

    /// Every block stays within `i32` after a counter-clockwise turn.
    pub open spec fn rotl_fits(&self) -> bool {
        &&& forall|i: int| 0 <= i < 4 ==> fits_i32(
            round_half(#[trigger] rotl_x2(self.origin2, self.blocks[i])),
            round_half(rotl_y2(self.origin2, self.blocks[i])),
        )
    }

    /// Every block and the doubled centre stay within `i32` after moving by `v`.
    pub open spec fn translate_fits(&self, v: vec2i) -> bool {
        &&& fits_i32(self.origin2.x + 2 * v.x, self.origin2.y + 2 * v.y)
        &&& forall|i: int| 0 <= i < 4 ==> fits_i32(
            #[trigger] self.blocks[i].x + v.x,
            self.blocks[i].y + v.y,
        )
    }

    /// The piece after a clockwise quarter turn: what `rotr` computes.
    pub open spec fn turned_r(&self) -> Mino {
        let o = self.origin2;
        Mino {
            origin2: o,
            rotation: (self.rotation + 1) as i32,
            blocks: [
                vec2 { x: round_half(rotr_x2(o, self.blocks[0])) as i32, y: round_half(rotr_y2(o, self.blocks[0])) as i32 },
                vec2 { x: round_half(rotr_x2(o, self.blocks[1])) as i32, y: round_half(rotr_y2(o, self.blocks[1])) as i32 },
                vec2 { x: round_half(rotr_x2(o, self.blocks[2])) as i32, y: round_half(rotr_y2(o, self.blocks[2])) as i32 },
                vec2 { x: round_half(rotr_x2(o, self.blocks[3])) as i32, y: round_half(rotr_y2(o, self.blocks[3])) as i32 },
            ],
            blocks_data: self.blocks_data,
        }
    }

    /// The piece after a counter-clockwise quarter turn: what `rotl` computes.
    pub open spec fn turned_l(&self) -> Mino {
        let o = self.origin2;
        Mino {
            origin2: o,
            rotation: (self.rotation - 1) as i32,
            blocks: [
                vec2 { x: round_half(rotl_x2(o, self.blocks[0])) as i32, y: round_half(rotl_y2(o, self.blocks[0])) as i32 },
                vec2 { x: round_half(rotl_x2(o, self.blocks[1])) as i32, y: round_half(rotl_y2(o, self.blocks[1])) as i32 },
                vec2 { x: round_half(rotl_x2(o, self.blocks[2])) as i32, y: round_half(rotl_y2(o, self.blocks[2])) as i32 },
                vec2 { x: round_half(rotl_x2(o, self.blocks[3])) as i32, y: round_half(rotl_y2(o, self.blocks[3])) as i32 },
            ],
            blocks_data: self.blocks_data,
        }
    }

    /// The piece moved by `(dx, dy)`: what `translate` computes.
    pub open spec fn moved(&self, dx: int, dy: int) -> Mino {
        Mino {
            origin2: vec2 { x: (self.origin2.x + 2 * dx) as i32, y: (self.origin2.y + 2 * dy) as i32 },
            rotation: self.rotation,
            blocks: [
                vec2 { x: (self.blocks[0].x + dx) as i32, y: (self.blocks[0].y + dy) as i32 },
                vec2 { x: (self.blocks[1].x + dx) as i32, y: (self.blocks[1].y + dy) as i32 },
                vec2 { x: (self.blocks[2].x + dx) as i32, y: (self.blocks[2].y + dy) as i32 },
                vec2 { x: (self.blocks[3].x + dx) as i32, y: (self.blocks[3].y + dy) as i32 },
            ],
            blocks_data: self.blocks_data,
        }
    }

    /// The bounding rectangle of the blocks, corners included.
    pub open spec fn lo_x(&self) -> int {
        min4(self.blocks[0].x as int, self.blocks[1].x as int, self.blocks[2].x as int, self.blocks[3].x as int)
    }

    pub open spec fn lo_y(&self) -> int {
        min4(self.blocks[0].y as int, self.blocks[1].y as int, self.blocks[2].y as int, self.blocks[3].y as int)
    }

    pub open spec fn hi_x(&self) -> int {
        max4(self.blocks[0].x as int, self.blocks[1].x as int, self.blocks[2].x as int, self.blocks[3].x as int)
    }

    pub open spec fn hi_y(&self) -> int {
        max4(self.blocks[0].y as int, self.blocks[1].y as int, self.blocks[2].y as int, self.blocks[3].y as int)
    }

    fn new(
        origin2: vec2i,
        b1: vec2i,
        b2: vec2i,
        b3: vec2i,
        b4: vec2i,
        d1: Data,
        d2: Data,
        d3: Data,
        d4: Data,
    ) -> (m: Mino)
        ensures
            m.origin2 == origin2,
            m.rotation == 0,
            m.blocks@ == seq![b1, b2, b3, b4],
            m.blocks_data@ == seq![d1, d2, d3, d4],
    {
        let m = Mino { origin2, rotation: 0, blocks: [b1, b2, b3, b4], blocks_data: [d1, d2, d3, d4] };
        assert(m.blocks@ =~= seq![b1, b2, b3, b4]);
        assert(m.blocks_data@ =~= seq![d1, d2, d3, d4]);
        m
    }

    /// Quarter turn clockwise about the centre; the turn counter goes up by one.
    pub fn rotr(&mut self)
        requires
            old(self).rotr_fits(),
            old(self).rotation < i32::MAX,
        ensures
            *final(self) == old(self).turned_r(),
    {
        let o = self.origin2;
        let b0 = Self::rotr_one(o, self.blocks[0]);
        let b1 = Self::rotr_one(o, self.blocks[1]);
        let b2 = Self::rotr_one(o, self.blocks[2]);
        let b3 = Self::rotr_one(o, self.blocks[3]);
        self.rotation = self.rotation + 1;
        self.blocks = [b0, b1, b2, b3];
    }

    fn rotr_one(o: vec2i, b: vec2i) -> (r: vec2i)
        requires
            fits_i32(round_half(rotr_x2(o, b)), round_half(rotr_y2(o, b))),
        ensures
            r.x == round_half(rotr_x2(o, b)),
            r.y == round_half(rotr_y2(o, b)),
    {
        let ox = o.x as i64;
        let oy = o.y as i64;
        let x2 = ox + oy - 2 * (b.y as i64);
        let y2 = 2 * (b.x as i64) - ox + oy;
        vec2 { x: half_rounded(x2) as i32, y: half_rounded(y2) as i32 }
    }

    /// Quarter turn counter-clockwise about the centre; the turn counter goes down by one.
    pub fn rotl(&mut self)
        requires
            old(self).rotl_fits(),
            old(self).rotation > i32::MIN,
        ensures
            *final(self) == old(self).turned_l(),
    {
        let o = self.origin2;
        let b0 = Self::rotl_one(o, self.blocks[0]);
        let b1 = Self::rotl_one(o, self.blocks[1]);
        let b2 = Self::rotl_one(o, self.blocks[2]);
        let b3 = Self::rotl_one(o, self.blocks[3]);
        self.rotation = self.rotation - 1;
        self.blocks = [b0, b1, b2, b3];
    }

    fn rotl_one(o: vec2i, b: vec2i) -> (r: vec2i)
        requires
            fits_i32(round_half(rotl_x2(o, b)), round_half(rotl_y2(o, b))),
        ensures
            r.x == round_half(rotl_x2(o, b)),
            r.y == round_half(rotl_y2(o, b)),
    {
        let ox = o.x as i64;
        let oy = o.y as i64;
        let x2 = 2 * (b.y as i64) - oy + ox;
        let y2 = ox + oy - 2 * (b.x as i64);
        vec2 { x: half_rounded(x2) as i32, y: half_rounded(y2) as i32 }
    }

    /// Moves the piece and its centre by `v`.
    pub fn translate(&mut self, v: vec2i)
        requires
            old(self).translate_fits(v),
        ensures
            *final(self) == old(self).moved(v.x as int, v.y as int),
    {
        let ox = (self.origin2.x as i64) + 2 * (v.x as i64);
        let oy = (self.origin2.y as i64) + 2 * (v.y as i64);
        self.origin2 = vec2 { x: ox as i32, y: oy as i32 };
        let b0 = vec2 { x: self.blocks[0].x + v.x, y: self.blocks[0].y + v.y };
        let b1 = vec2 { x: self.blocks[1].x + v.x, y: self.blocks[1].y + v.y };
        let b2 = vec2 { x: self.blocks[2].x + v.x, y: self.blocks[2].y + v.y };
        let b3 = vec2 { x: self.blocks[3].x + v.x, y: self.blocks[3].y + v.y };
        self.blocks = [b0, b1, b2, b3];
    }

    pub fn right(&mut self)
        requires
            old(self).translate_fits(vec2 { x: 1, y: 0 }),
        ensures
            *final(self) == old(self).moved(1, 0),
    {
        self.translate(vec2 { x: 1, y: 0 });
    }

    pub fn left(&mut self)
        requires
            old(self).translate_fits(vec2 { x: -1i32, y: 0i32 }),
        ensures
            *final(self) == old(self).moved(-1, 0),
    {
        self.translate(vec2 { x: -1, y: 0 });
    }

    pub fn down(&mut self)
        requires
            old(self).translate_fits(vec2 { x: 0, y: 1 }),
        ensures
            *final(self) == old(self).moved(0, 1),
    {
        self.translate(vec2 { x: 0, y: 1 });
    }

    /// Turns every block into a shadow block; nothing else changes.
    pub fn make_shadow(&mut self)
        ensures
            final(self).origin2 == old(self).origin2,
            final(self).rotation == old(self).rotation,
            final(self).blocks == old(self).blocks,
            final(self).blocks_data@ == seq![data_at(1, 0), data_at(1, 0), data_at(1, 0), data_at(1, 0)],
    {
        let s = Data::shadow();
        self.blocks_data = [s, s, s, s];
        assert(self.blocks_data@ =~= seq![s, s, s, s]);
    }

    /// Lowest and highest corner of the blocks' bounding rectangle.
    pub fn get_rect(&self) -> (r: (vec2i, vec2i))
        ensures
            r.0.x == self.lo_x(),
            r.0.y == self.lo_y(),
            r.1.x == self.hi_x(),
            r.1.y == self.hi_y(),
    {
        let b = &self.blocks;
        let lo_x = min_i32(min_i32(b[0].x, b[1].x), min_i32(b[2].x, b[3].x));
        let lo_y = min_i32(min_i32(b[0].y, b[1].y), min_i32(b[2].y, b[3].y));
        let hi_x = max_i32(max_i32(b[0].x, b[1].x), max_i32(b[2].x, b[3].x));
        let hi_y = max_i32(max_i32(b[0].y, b[1].y), max_i32(b[2].y, b[3].y));
        (vec2 { x: lo_x, y: lo_y }, vec2 { x: hi_x, y: hi_y })
    }

    /// Width and height of the bounding rectangle, in blocks.
    pub fn get_size(&self) -> (r: vec2i)
        requires
            fits_i32(self.hi_x() - self.lo_x() + 1, self.hi_y() - self.lo_y() + 1),
        ensures
            r.x == self.hi_x() - self.lo_x() + 1,
            r.y == self.hi_y() - self.lo_y() + 1,
    {
        let (lo, hi) = self.get_rect();
        let w = (hi.x as i64) - (lo.x as i64) + 1;
        let h = (hi.y as i64) - (lo.y as i64) + 1;
        vec2 { x: w as i32, y: h as i32 }
    }

    pub fn l() -> (m: Mino)
        ensures
            m.wf(),
            m.is_piece(0),
    {
        let d = Data::blue();
        Mino::new(vec2::new(0, 2), vec2::new(0, 0), vec2::new(0, 1), vec2::new(0, 2), vec2::new(1, 2), d, d, d, d)
    }

    pub fn j() -> (m: Mino)
        ensures
            m.wf(),
            m.is_piece(1),
    {
        let d = Data::orange();
        Mino::new(vec2::new(2, 2), vec2::new(1, 0), vec2::new(1, 1), vec2::new(1, 2), vec2::new(0, 2), d, d, d, d)
    }

    pub fn o() -> (m: Mino)
        ensures
            m.wf(),
            m.is_piece(2),
    {
        let d = Data::yellow();
        Mino::new(vec2::new(1, 1), vec2::new(0, 0), vec2::new(1, 0), vec2::new(0, 1), vec2::new(1, 1), d, d, d, d)
    }

    pub fn z() -> (m: Mino)
        ensures
            m.wf(),
            m.is_piece(3),
    {
        let d = Data::green();
        Mino::new(vec2::new(2, 2), vec2::new(0, 1), vec2::new(1, 1), vec2::new(1, 0), vec2::new(2, 0), d, d, d, d)
    }

    pub fn s() -> (m: Mino)
        ensures
            m.wf(),
            m.is_piece(4),
    {
        let d = Data::purple();
        Mino::new(vec2::new(2, 2), vec2::new(0, 0), vec2::new(1, 0), vec2::new(1, 1), vec2::new(2, 1), d, d, d, d)
    }

    pub fn t() -> (m: Mino)
        ensures
            m.wf(),
            m.is_piece(5),
    {
        let d = Data::pink();
        Mino::new(vec2::new(2, 2), vec2::new(0, 1), vec2::new(1, 1), vec2::new(2, 1), vec2::new(1, 0), d, d, d, d)
    }

    pub fn i() -> (m: Mino)
        ensures
            m.wf(),
            m.is_piece(6),
    {
        let d = Data::cyan();
        Mino::new(vec2::new(3, 1), vec2::new(0, 0), vec2::new(1, 0), vec2::new(2, 0), vec2::new(3, 0), d, d, d, d)
    }

    /// `self` is a fresh piece of kind `kind` (0 to 6: l, j, o, z, s, t, i),
    /// as its constructor makes it: turn counter 0.
    pub open spec fn is_piece(&self, kind: int) -> bool {
        let o2 = kind_origin2(kind);
        let b = kind_blocks(kind);
        &&& self.origin2.x == o2.0 && self.origin2.y == o2.1
        &&& self.rotation == 0
        &&& forall|i: int| 0 <= i < 4 ==> (#[trigger] self.blocks[i]).x == b[i].0 && self.blocks[i].y == b[i].1
        &&& forall|i: int| 0 <= i < 4 ==> #[trigger] self.blocks_data[i] == kind_data(kind)
    }
}

/// The colour of each piece kind, in the order l, j, o, z, s, t, i.
pub open spec fn kind_data(kind: int) -> Data {
    if kind == 0 {
        data_at(1, 1)
    } else if kind == 1 {
        data_at(0, 1)
    } else if kind == 2 {
        data_at(2, 2)
    } else if kind == 3 {
        data_at(0, 2)
    } else if kind == 4 {
        data_at(1, 2)
    } else if kind == 5 {
        data_at(2, 1)
    } else {
        data_at(2, 0)
    }
}

/// The doubled centre of each piece kind when it is made.
pub open spec fn kind_origin2(kind: int) -> (int, int) {
    if kind == 0 {
        (0, 2)
    } else if kind == 2 {
        (1, 1)
    } else if kind == 6 {
        (3, 1)
    } else {
        (2, 2)
    }
}

/// The four block positions of each piece kind when it is made.
pub open spec fn kind_blocks(kind: int) -> Seq<(int, int)> {
    if kind == 0 {
        seq![(0, 0), (0, 1), (0, 2), (1, 2)]
    } else if kind == 1 {
        seq![(1, 0), (1, 1), (1, 2), (0, 2)]
    } else if kind == 2 {
        seq![(0, 0), (1, 0), (0, 1), (1, 1)]
    } else if kind == 3 {
        seq![(0, 1), (1, 1), (1, 0), (2, 0)]
    } else if kind == 4 {
        seq![(0, 0), (1, 0), (1, 1), (2, 1)]
    } else if kind == 5 {
        seq![(0, 1), (1, 1), (2, 1), (1, 0)]
    } else {
        seq![(0, 0), (1, 0), (2, 0), (3, 0)]
    }
}

/// Half of `n` rounded half away from zero, for `n` well inside `i64`.
fn half_rounded(n: i64) -> (r: i64)
    requires
        -0x1_0000_0000_0000 <= n <= 0x1_0000_0000_0000,
    ensures
        r == round_half(n as int),
{
    if n % 2 == 0 {
        n / 2
    } else if n > 0 {
        (n + 1) / 2
    } else {
        (n - 1) / 2
    }
}

fn min_i32(a: i32, b: i32) -> (r: i32)
    ensures
        r == if a <= b { a } else { b },
{
    if a <= b { a } else { b }
}

fn max_i32(a: i32, b: i32) -> (r: i32)
    ensures
        r == if a >= b { a } else { b },
{
    if a >= b { a } else { b }
}

} // verus!

verus! {

/// A centred piece turns exactly: every block lands on twice-half of the
/// turned doubled position, and the piece stays centred.
pub proof fn lemma_turns_are_exact(m: Mino)
    requires
        m.wf(),
    ensures
        forall|i: int| 0 <= i < 4 ==> {
            &&& rotr_x2(m.origin2, #[trigger] m.blocks[i]) % 2 == 0
            &&& rotr_y2(m.origin2, m.blocks[i]) % 2 == 0
            &&& rotl_x2(m.origin2, m.blocks[i]) % 2 == 0
            &&& rotl_y2(m.origin2, m.blocks[i]) % 2 == 0
        },
{
    assert forall|i: int| 0 <= i < 4 implies {
        &&& rotr_x2(m.origin2, #[trigger] m.blocks[i]) % 2 == 0
        &&& rotr_y2(m.origin2, m.blocks[i]) % 2 == 0
        &&& rotl_x2(m.origin2, m.blocks[i]) % 2 == 0
        &&& rotl_y2(m.origin2, m.blocks[i]) % 2 == 0
    } by {
        let o = m.origin2;
        let b = m.blocks[i];
        assert((o.x + o.y - 2 * b.y) % 2 == 0);
        assert((2 * b.x - o.x + o.y) % 2 == 0);
        assert((2 * b.y - o.y + o.x) % 2 == 0);
        assert((o.x + o.y - 2 * b.x) % 2 == 0);
    }
}

/// One block turned clockwise about a centre it is near, then turned back.
proof fn lemma_block_turn_r(o: vec2i, b: vec2i)
    requires
        (o.x + o.y) % 2 == 0,
        near_centre(o, b),
        fits_i32(round_half(rotr_x2(o, b)), round_half(rotr_y2(o, b))),
    ensures
        ({
            let t = vec2 { x: round_half(rotr_x2(o, b)) as i32, y: round_half(rotr_y2(o, b)) as i32 };
            &&& 2 * t.x == rotr_x2(o, b)
            &&& 2 * t.y == rotr_y2(o, b)
            &&& near_centre(o, t)
            &&& fits_i32(round_half(rotl_x2(o, t)), round_half(rotl_y2(o, t)))
            &&& round_half(rotl_x2(o, t)) == b.x
            &&& round_half(rotl_y2(o, t)) == b.y
        }),
{
    let x2 = rotr_x2(o, b);
    let y2 = rotr_y2(o, b);
    assert(x2 % 2 == 0);
    assert(y2 % 2 == 0);
    assert(round_half(x2) == x2 / 2);
    assert(round_half(y2) == y2 / 2);
    let t = vec2 { x: round_half(x2) as i32, y: round_half(y2) as i32 };
    assert(2 * t.x == x2);
    assert(2 * t.y == y2);
    assert(rotl_x2(o, t) == 2 * b.x);
    assert(rotl_y2(o, t) == 2 * b.y);
    assert(rotl_x2(o, t) % 2 == 0);
    assert(rotl_y2(o, t) % 2 == 0);
}

/// One block turned counter-clockwise about a centre it is near, then turned back.
proof fn lemma_block_turn_l(o: vec2i, b: vec2i)
    requires
        (o.x + o.y) % 2 == 0,
        near_centre(o, b),
        fits_i32(round_half(rotl_x2(o, b)), round_half(rotl_y2(o, b))),
    ensures
        ({
            let t = vec2 { x: round_half(rotl_x2(o, b)) as i32, y: round_half(rotl_y2(o, b)) as i32 };
            &&& 2 * t.x == rotl_x2(o, b)
            &&& 2 * t.y == rotl_y2(o, b)
            &&& near_centre(o, t)
            &&& fits_i32(round_half(rotr_x2(o, t)), round_half(rotr_y2(o, t)))
            &&& round_half(rotr_x2(o, t)) == b.x
            &&& round_half(rotr_y2(o, t)) == b.y
        }),
{
    let x2 = rotl_x2(o, b);
    let y2 = rotl_y2(o, b);
    assert(x2 % 2 == 0);
    assert(y2 % 2 == 0);
    assert(round_half(x2) == x2 / 2);
    assert(round_half(y2) == y2 / 2);
    let t = vec2 { x: round_half(x2) as i32, y: round_half(y2) as i32 };
    assert(2 * t.x == x2);
    assert(2 * t.y == y2);
    assert(rotr_x2(o, t) == 2 * b.x);
    assert(rotr_y2(o, t) == 2 * b.y);
    assert(rotr_x2(o, t) % 2 == 0);
    assert(rotr_y2(o, t) % 2 == 0);
}

/// Turning a centred piece clockwise and then counter-clockwise gives back the
/// same piece, and the turned piece is still centred.
#[verifier::spinoff_prover]
#[verifier::rlimit(40)]
pub proof fn turn_right_then_left_restores(m: Mino)
    requires
        m.wf(),
        m.rotr_fits(),
        m.rotation < i32::MAX,
    ensures
        m.turned_r().wf(),
        m.turned_r().rotl_fits(),
        m.turned_r().turned_l() == m,
{
    broadcast use vstd::array::group_array_axioms;
    let o = m.origin2;
    assert(near_centre(o, m.blocks[0]) && near_centre(o, m.blocks[1]));
    assert(near_centre(o, m.blocks[2]) && near_centre(o, m.blocks[3]));
    assert(fits_i32(round_half(rotr_x2(o, m.blocks[0])), round_half(rotr_y2(o, m.blocks[0]))));
    assert(fits_i32(round_half(rotr_x2(o, m.blocks[1])), round_half(rotr_y2(o, m.blocks[1]))));
    assert(fits_i32(round_half(rotr_x2(o, m.blocks[2])), round_half(rotr_y2(o, m.blocks[2]))));
    assert(fits_i32(round_half(rotr_x2(o, m.blocks[3])), round_half(rotr_y2(o, m.blocks[3]))));
    lemma_block_turn_r(o, m.blocks[0]);
    lemma_block_turn_r(o, m.blocks[1]);
    lemma_block_turn_r(o, m.blocks[2]);
    lemma_block_turn_r(o, m.blocks[3]);
    let r = m.turned_r();
    assert(r.wf());
    let l = r.turned_l();
    assert(l.blocks =~= m.blocks);
}

/// Turning a centred piece counter-clockwise and then clockwise gives back the
/// same piece, and the turned piece is still centred.
#[verifier::spinoff_prover]
#[verifier::rlimit(40)]
pub proof fn turn_left_then_right_restores(m: Mino)
    requires
        m.wf(),
        m.rotl_fits(),
        m.rotation > i32::MIN,
    ensures
        m.turned_l().wf(),
        m.turned_l().rotr_fits(),
        m.turned_l().turned_r() == m,
{
    broadcast use vstd::array::group_array_axioms;
    let o = m.origin2;
    assert(near_centre(o, m.blocks[0]) && near_centre(o, m.blocks[1]));
    assert(near_centre(o, m.blocks[2]) && near_centre(o, m.blocks[3]));
    assert(fits_i32(round_half(rotl_x2(o, m.blocks[0])), round_half(rotl_y2(o, m.blocks[0]))));
    assert(fits_i32(round_half(rotl_x2(o, m.blocks[1])), round_half(rotl_y2(o, m.blocks[1]))));
    assert(fits_i32(round_half(rotl_x2(o, m.blocks[2])), round_half(rotl_y2(o, m.blocks[2]))));
    assert(fits_i32(round_half(rotl_x2(o, m.blocks[3])), round_half(rotl_y2(o, m.blocks[3]))));
    lemma_block_turn_l(o, m.blocks[0]);
    lemma_block_turn_l(o, m.blocks[1]);
    lemma_block_turn_l(o, m.blocks[2]);
    lemma_block_turn_l(o, m.blocks[3]);
    let r = m.turned_l();
    assert(r.wf());
    let l = r.turned_r();
    assert(l.blocks =~= m.blocks);
}

} // verus!

verus! {

/// Bound on the doubled centre of a piece in play: the centre stays within
/// 2^24 cells of the well's corner, which leaves every machine computation on
/// the piece far inside `i32`.
pub open spec fn centre_in_range(m: Mino) -> bool {
    &&& -0x400_0000 <= m.origin2.x <= 0x400_0000
    &&& -0x400_0000 <= m.origin2.y <= 0x400_0000
}

/// A centred piece whose centre is in range has all its blocks within
/// `2^24 + 2` of the corner, and both quarter turns fit `i32`.
pub proof fn lemma_centred_bounds(m: Mino)
    requires
        m.wf(),
        centre_in_range(m),
    ensures
        forall|i: int| 0 <= i < 4 ==> -0x200_0002 <= (#[trigger] m.blocks[i]).x <= 0x200_0002 && -0x200_0002 <= m.blocks[i].y <= 0x200_0002,
        m.rotl_fits(),
        m.rotr_fits(),
        -0x200_0002 <= m.lo_x() <= m.hi_x() <= 0x200_0002,
        -0x200_0002 <= m.lo_y() <= m.hi_y() <= 0x200_0002,
        m.hi_x() - m.lo_x() <= 4,
        m.hi_y() - m.lo_y() <= 4,
{
    let o = m.origin2;
    assert forall|i: int| 0 <= i < 4 implies -0x200_0002 <= (#[trigger] m.blocks[i]).x <= 0x200_0002 && -0x200_0002 <= m.blocks[i].y <= 0x200_0002 by {
        assert(near_centre(o, m.blocks[i]));
    }
    lemma_turns_are_exact(m);
    assert forall|i: int| 0 <= i < 4 implies fits_i32(
        round_half(#[trigger] rotl_x2(m.origin2, m.blocks[i])),
        round_half(rotl_y2(m.origin2, m.blocks[i])),
    ) by {
        assert(near_centre(o, m.blocks[i]));
    }
    assert forall|i: int| 0 <= i < 4 implies fits_i32(
        round_half(#[trigger] rotr_x2(m.origin2, m.blocks[i])),
        round_half(rotr_y2(m.origin2, m.blocks[i])),
    ) by {
        assert(near_centre(o, m.blocks[i]));
    }
    assert(near_centre(o, m.blocks[0]) && near_centre(o, m.blocks[1]));
    assert(near_centre(o, m.blocks[2]) && near_centre(o, m.blocks[3]));
}

/// A centred piece in range stays centred, with the same centre, after a
/// quarter turn either way.
pub proof fn lemma_centred_turns(m: Mino)
    requires
        m.wf(),
        centre_in_range(m),
    ensures
        m.rotation > i32::MIN ==> m.turned_l().wf() && centre_in_range(m.turned_l()) && m.turned_l().origin2 == m.origin2,
        m.rotation < i32::MAX ==> m.turned_r().wf() && centre_in_range(m.turned_r()) && m.turned_r().origin2 == m.origin2,
{
    lemma_centred_bounds(m);
    if m.rotation > i32::MIN {
        turn_left_then_right_restores(m);
    }
    if m.rotation < i32::MAX {
        turn_right_then_left_restores(m);
    }
}

/// Where a block lands after a clockwise quarter turn about `o`.
pub open spec fn turn_block_r(o: vec2i, b: vec2i) -> vec2i {
    vec2 { x: round_half(rotr_x2(o, b)) as i32, y: round_half(rotr_y2(o, b)) as i32 }
}

/// A block turned clockwise four times about a centre it is near, with the
/// centre in range, is back where it started.
proof fn lemma_block_four_turns(o: vec2i, b: vec2i)
    requires
        (o.x + o.y) % 2 == 0,
        -0x400_0000 <= o.x <= 0x400_0000,
        -0x400_0000 <= o.y <= 0x400_0000,
        near_centre(o, b),
    ensures
        turn_block_r(o, turn_block_r(o, turn_block_r(o, turn_block_r(o, b)))) == b,
{
    let t1 = turn_block_r(o, b);
    assert(round_half(rotr_x2(o, b)) == rotr_x2(o, b) / 2);
    assert(round_half(rotr_y2(o, b)) == rotr_y2(o, b) / 2);
    lemma_block_turn_r(o, b);
    let t2 = turn_block_r(o, t1);
    assert(round_half(rotr_x2(o, t1)) == rotr_x2(o, t1) / 2);
    assert(round_half(rotr_y2(o, t1)) == rotr_y2(o, t1) / 2);
    lemma_block_turn_r(o, t1);
    let t3 = turn_block_r(o, t2);
    assert(round_half(rotr_x2(o, t2)) == rotr_x2(o, t2) / 2);
    assert(round_half(rotr_y2(o, t2)) == rotr_y2(o, t2) / 2);
    lemma_block_turn_r(o, t2);
    assert(round_half(rotr_x2(o, t3)) == rotr_x2(o, t3) / 2);
    assert(round_half(rotr_y2(o, t3)) == rotr_y2(o, t3) / 2);
    lemma_block_turn_r(o, t3);
}

/// The blocks of a piece turned clockwise, one by one.
proof fn lemma_turned_r_blocks(m: Mino)
    ensures
        m.turned_r().origin2 == m.origin2,
        m.turned_r().blocks_data == m.blocks_data,
        m.turned_r().rotation == (m.rotation + 1) as i32,
        forall|i: int| 0 <= i < 4 ==> #[trigger] m.turned_r().blocks[i] == turn_block_r(m.origin2, m.blocks[i]),
{
    broadcast use vstd::array::group_array_axioms;
    let r = m.turned_r();
    assert forall|i: int| 0 <= i < 4 implies #[trigger] r.blocks[i] == turn_block_r(m.origin2, m.blocks[i]) by {
        if i == 0 {
        } else if i == 1 {
        } else if i == 2 {
        } else {
        }
    }
}

/// Four clockwise quarter turns bring a centred piece whose centre is in
/// range back to the same blocks, centre and colours, with the turn counter
/// four higher.
pub proof fn four_turns_restore(m: Mino)
    requires
        m.wf(),
        centre_in_range(m),
        m.rotation <= i32::MAX - 4,
    ensures
        ({
            let r4 = m.turned_r().turned_r().turned_r().turned_r();
            &&& r4.blocks == m.blocks
            &&& r4.origin2 == m.origin2
            &&& r4.blocks_data == m.blocks_data
            &&& r4.rotation == m.rotation + 4
        }),
{
    let o = m.origin2;
    let m1 = m.turned_r();
    let m2 = m1.turned_r();
    let m3 = m2.turned_r();
    let m4 = m3.turned_r();
    lemma_turned_r_blocks(m);
    lemma_turned_r_blocks(m1);
    lemma_turned_r_blocks(m2);
    lemma_turned_r_blocks(m3);
    assert forall|i: int| 0 <= i < 4 implies #[trigger] m4.blocks[i] == m.blocks[i] by {
        assert(near_centre(o, m.blocks[i]));
        lemma_block_four_turns(o, m.blocks[i]);
    }
    assert(m4.blocks =~= m.blocks);
}

/// Moving a centred piece keeps it centred.
pub proof fn lemma_moved_wf(m: Mino, dx: int, dy: int)
    requires
        m.wf(),
        m.translate_fits(vec2 { x: dx as i32, y: dy as i32 }),
        fits_i32(dx, dy),
    ensures
        m.moved(dx, dy).wf(),
{
    let r = m.moved(dx, dy);
    assert forall|i: int| 0 <= i < 4 implies near_centre(r.origin2, #[trigger] r.blocks[i]) by {
        assert(near_centre(m.origin2, m.blocks[i]));
    }
}

} // verus!

verus! {

/// Moving a piece by nothing leaves it as it is.
pub proof fn lemma_moved_zero(m: Mino)
    ensures
        m.moved(0, 0) == m,
{
    broadcast use vstd::array::group_array_axioms;
    assert(m.moved(0, 0).blocks =~= m.blocks);
}

} // verus!
