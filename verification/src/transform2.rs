use vstd::prelude::*;

verus! {

/// A 3 by 3 matrix, stored by rows: entry `(x, y)` is at `x + 3y`.
#[derive(Clone, Copy, Debug, Default)]
pub struct Transform2<T> {
    pub matrix: [T; 9],
}

impl<T> Transform2<T> {
    /// The entry at column `index.0`, row `index.1`.
    pub fn index(&self, index: (usize, usize)) -> (r: &T)
        requires
            index.0 + index.1 * 3 < 9,
        ensures
            *r == self.matrix@[index.0 + index.1 * 3],
    {
        &self.matrix[index.0 + index.1 * 3]
    }

    /// The entry at column `index.0`, row `index.1`, to be changed.
    pub fn index_mut(&mut self, index: (usize, usize)) -> (r: &mut T)
        requires
            index.0 + index.1 * 3 < 9,
        ensures
            *r == old(self).matrix@[index.0 + index.1 * 3],
            final(self).matrix@ == old(self).matrix@.update(index.0 + index.1 * 3, *final(r)),
    {
        &mut self.matrix[index.0 + index.1 * 3]
    }
}

} // verus!
