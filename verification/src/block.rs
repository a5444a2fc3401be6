use vstd::prelude::*;

use crate::vec2::{vec2, vec2i};

verus! {

/// What a cell of the well or a block of a piece shows: the position of its
/// picture in the block texture sheet.
#[derive(Clone, Copy, Debug, PartialEq, Eq, Structural)]
pub struct Data {
    pub texture_pos: vec2i,
}

/// The texture position of a named block kind.
pub open spec fn data_at(x: int, y: int) -> Data {
    Data { texture_pos: vec2 { x: x as i32, y: y as i32 } }
}

impl Data {
    /// The empty block.
    pub fn empty() -> (d: Data)
        ensures d == data_at(0, 0),
    {
        Data::new(0, 0)
    }

    /// The block drawn for the landing preview of a piece.
    pub fn shadow() -> (d: Data)
        ensures d == data_at(1, 0),
    {
        Data::new(1, 0)
    }

    /// The block of garbage lines received from an opponent.
    pub fn gray() -> (d: Data)
        ensures d == data_at(3, 0),
    {
        Data::new(3, 0)
    }

    pub fn cyan() -> (d: Data)
        ensures d == data_at(2, 0),
    {
        Data::new(2, 0)
    }

    pub fn orange() -> (d: Data)
        ensures d == data_at(0, 1),
    {
        Data::new(0, 1)
    }

    pub fn blue() -> (d: Data)
        ensures d == data_at(1, 1),
    {
        Data::new(1, 1)
    }

    pub fn pink() -> (d: Data)
        ensures d == data_at(2, 1),
    {
        Data::new(2, 1)
    }

    pub fn green() -> (d: Data)
        ensures d == data_at(0, 2),
    {
        Data::new(0, 2)
    }

    pub fn purple() -> (d: Data)
        ensures d == data_at(1, 2),
    {
        Data::new(1, 2)
    }

    pub fn yellow() -> (d: Data)
        ensures d == data_at(2, 2),
    {
        Data::new(2, 2)
    }

    /// The marker of a line that was sent to an opponent.
    pub fn sent_line() -> (d: Data)
        ensures d == data_at(3, 1),
    {
        Data::new(3, 1)
    }

    /// The marker of a line slot with nothing pending.
    pub fn empty_line() -> (d: Data)
        ensures d == data_at(3, 2),
    {
        Data::new(3, 2)
    }

    pub fn new(x: i32, y: i32) -> (d: Data)
        ensures
            d.texture_pos.x == x,
            d.texture_pos.y == y,
    {
        Data { texture_pos: vec2::new(x, y) }
    }

    /// True exactly for the empty block.
    pub fn is_empty(&self) -> (b: bool)
        ensures b == (*self == data_at(0, 0)),
    {
        self.texture_pos.x == 0 && self.texture_pos.y == 0
    }
}

} // verus!
