use vstd::prelude::*;

use crate::block::Data;

verus! {

/// The grid that pieces fall into: cell `(x, y)` is array row `x`, array
/// column `y`; so the well is `num_rows` cells wide and `num_columns` cells
/// high, with `y` growing downward.
pub type Well = array2d::Array2D<Option<Data>>;

#[verifier::external_type_specification]
#[verifier::external_body]
#[verifier::reject_recursive_types(T)]
pub struct ExArray2D<T: Clone>(array2d::Array2D<T>);

/// What a well holds: the value at each `(row, column)` index inside its shape.
pub uninterp spec fn well_cells(w: array2d::Array2D<Option<Data>>) -> Map<(int, int), Option<Data>>;

/// The shape a well was made with: `(num_rows, num_columns)`.
pub uninterp spec fn well_shape(w: array2d::Array2D<Option<Data>>) -> (nat, nat);

/// Width of the well: the number of array rows.
pub open spec fn width(w: Well) -> int {
    well_shape(w).0 as int
}

/// Height of the well: the number of array columns.
pub open spec fn height(w: Well) -> int {
    well_shape(w).1 as int
}

/// `(x, y)` lies inside the well.
pub open spec fn in_bounds(w: Well, x: int, y: int) -> bool {
    0 <= x < width(w) && 0 <= y < height(w)
}

/// The cell at `(x, y)`.
pub open spec fn cell(w: Well, x: int, y: int) -> Option<Data> {
    well_cells(w)[(x, y)]
}

/// Largest width or height of a well: sizes beyond it would not fit the
/// `i32` block coordinates with room to move pieces around.
pub const MAX_WELL_DIM: usize = 0x100_0000;

/// A well whose sizes leave room for block coordinates in `i32` and whose
/// cells fit in memory (a vector of them stays under `isize::MAX` bytes, at
/// most 16 bytes a cell).
pub open spec fn well_ok(w: Well) -> bool {
    &&& width(w) <= MAX_WELL_DIM
    &&& height(w) <= MAX_WELL_DIM
    &&& width(w) * height(w) * 16 <= isize::MAX
}

/// `array2d::Array2D::filled_with`: a new array of the given shape with the
/// element in every cell. It multiplies the sizes and allocates a vector of
/// that many cells, which panics past `isize::MAX` bytes; a cell takes at
/// most 16 bytes.
#[verifier::external_body]
pub(crate) fn well_filled_with(element: Option<Data>, num_rows: usize, num_columns: usize) -> (w: Well)
    requires
        num_rows * num_columns * 16 <= isize::MAX,
    ensures
        well_shape(w) == (num_rows as nat, num_columns as nat),
        forall|x: int, y: int| 0 <= x < num_rows && 0 <= y < num_columns ==> #[trigger] cell(w, x, y) == element,
{
    array2d::Array2D::filled_with(element, num_rows, num_columns)
}

/// `array2d::Array2D::num_rows`: the first size the array was made with.
#[verifier::external_body]
pub(crate) fn well_num_rows(w: &Well) -> (n: usize)
    ensures
        n == well_shape(*w).0,
{
    w.num_rows()
}

/// `array2d::Array2D::num_columns`: the second size the array was made with.
#[verifier::external_body]
pub(crate) fn well_num_columns(w: &Well) -> (n: usize)
    ensures
        n == well_shape(*w).1,
{
    w.num_columns()
}

/// `array2d::Array2D::get`: the element at `(row, column)` when the index is
/// inside the shape, and `None` otherwise (the element is copied out).
#[verifier::external_body]
pub(crate) fn well_get(w: &Well, row: usize, column: usize) -> (r: Option<Option<Data>>)
    ensures
        row < well_shape(*w).0 && column < well_shape(*w).1 ==> r == Some(
            well_cells(*w)[(row as int, column as int)],
        ),
        !(row < well_shape(*w).0 && column < well_shape(*w).1) ==> r is None,
{
    w.get(row, column).copied()
}

/// `array2d::Array2D::set`: stores the element at `(row, column)` when the
/// index is inside the shape and leaves the array as it was otherwise; the
/// shape never changes.
#[verifier::external_body]
pub(crate) fn well_set(w: &mut Well, row: usize, column: usize, element: Option<Data>)
    ensures
        well_shape(*final(w)) == well_shape(*old(w)),
        row < well_shape(*old(w)).0 && column < well_shape(*old(w)).1 ==> well_cells(*final(w))
            == well_cells(*old(w)).insert((row as int, column as int), element),
        !(row < well_shape(*old(w)).0 && column < well_shape(*old(w)).1) ==> well_cells(*final(w))
            == well_cells(*old(w)),
{
    let _ = w.set(row, column, element);
}

/// Width of the well (`num_rows` of the array).
pub fn well_width(w: &Well) -> (n: usize)
    ensures
        n == width(*w),
{
    well_num_rows(w)
}

/// Height of the well (`num_columns` of the array).
pub fn well_height(w: &Well) -> (n: usize)
    ensures
        n == height(*w),
{
    well_num_columns(w)
}

/// The cell at `(x, y)`, which must lie inside the well (indexing panics otherwise).
pub fn well_at(w: &Well, x: usize, y: usize) -> (c: Option<Data>)
    requires
        in_bounds(*w, x as int, y as int),
    ensures
        c == cell(*w, x as int, y as int),
{
    let r = well_get(w, x, y);
    match r {
        Some(c) => c,
        None => None,
    }
}

/// Stores `c` at `(x, y)`, which must lie inside the well.
pub fn well_put(w: &mut Well, x: usize, y: usize, c: Option<Data>)
    requires
        in_bounds(*old(w), x as int, y as int),
    ensures
        well_shape(*final(w)) == well_shape(*old(w)),
        forall|i: int, j: int| #[trigger] cell(*final(w), i, j) == if i == x && j == y {
            c
        } else {
            cell(*old(w), i, j)
        },
{
    well_set(w, x, y, c);
}

/// A new well of the given size with every cell empty.
pub fn empty_well(width: usize, height: usize) -> (w: Well)
    requires
        width * height * 16 <= isize::MAX,
    ensures
        well_shape(w) == (width as nat, height as nat),
        forall|x: int, y: int| 0 <= x < width && 0 <= y < height ==> #[trigger] cell(w, x, y) is None,
{
    well_filled_with(None, width, height)
}

} // verus!
