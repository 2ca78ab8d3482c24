//! A grid of counts, one per unit, kept in an `ndarray` array.

use vstd::prelude::*;

verus! {

/// A grid of counts: a two-dimensional `ndarray` array of `usize`.
#[verifier::external_body]
pub struct CountGrid {
    array: ndarray::Array2<usize>,
}

/// The numbers that a grid holds, row by row.
pub uninterp spec fn cells(grid: CountGrid) -> Seq<Seq<usize>>;

/// Whether all rows of a grid have `m` numbers.
pub open spec fn has_columns(rows: Seq<Seq<usize>>, m: nat) -> bool {
    forall|r: int| 0 <= r < rows.len() ==> (#[trigger] rows[r]).len() == m
}

/// A grid of `n` rows and `m` columns that holds zero everywhere.
pub open spec fn zero_cells(n: nat, m: nat) -> Seq<Seq<usize>> {
    Seq::new(n, |r: int| Seq::new(m, |c: int| 0usize))
}

/// `ndarray::Array2::zeros` for a shape of two axes: a grid of `n` rows and `m` columns
/// that holds zero everywhere. The call panics where the product of the axis lengths
/// that are not zero is more than `isize::MAX`, so the caller is asked to keep each
/// length and their product within that.
#[verifier::external_body]
fn zero_grid(n: usize, m: usize) -> (grid: CountGrid)
    requires
        n <= isize::MAX,
        m <= isize::MAX,
        n * m <= isize::MAX,
    ensures
        cells(grid) == zero_cells(n as nat, m as nat),
{
    CountGrid { array: ndarray::Array2::zeros((n, m)) }
}

/// `ndarray::Array2::dim`: the number of rows and the number of columns, which every
/// row has.
#[verifier::external_body]
fn grid_shape(grid: &CountGrid) -> (shape: (usize, usize))
    ensures
        shape.0 == cells(*grid).len(),
        has_columns(cells(*grid), shape.1 as nat),
{
    grid.array.dim()
}

/// Reading an `ndarray::Array2` at an index pair: the number at `(row, col)`. The index
/// must lie in the grid, else the read panics.
#[verifier::external_body]
fn read_cell(grid: &CountGrid, row: usize, col: usize) -> (value: usize)
    requires
        row < cells(*grid).len(),
        col < cells(*grid)[row as int].len(),
    ensures
        value == cells(*grid)[row as int][col as int],
{
    grid.array[(row, col)]
}

/// Writing an `ndarray::Array2` at an index pair: the number at `(row, col)` becomes
/// `value` and no other number changes. The index must lie in the grid, else the write
/// panics.
#[verifier::external_body]
fn write_cell(grid: &mut CountGrid, row: usize, col: usize, value: usize)
    requires
        row < cells(*old(grid)).len(),
        col < cells(*old(grid))[row as int].len(),
    ensures
        cells(*final(grid)) == cells(*old(grid)).update(
            row as int,
            cells(*old(grid))[row as int].update(col as int, value),
        ),
{
    grid.array[(row, col)] = value;
}

impl View for CountGrid {
    type V = Seq<Seq<usize>>;

    open spec fn view(&self) -> Seq<Seq<usize>> {
        cells(*self)
    }
}

impl CountGrid {
    /// A grid of `n` rows and `m` columns with every count at zero.
    pub(crate) fn zeros(n: usize, m: usize) -> (grid: CountGrid)
        requires
            n <= isize::MAX,
            m <= isize::MAX,
            n * m <= isize::MAX,
        ensures
            grid@ == zero_cells(n as nat, m as nat),
    {
        zero_grid(n, m)
    }

    /// The number of rows and the number of columns.
    pub fn shape(&self) -> (shape: (usize, usize))
        ensures
            shape.0 == self@.len(),
            has_columns(self@, shape.1 as nat),
    {
        grid_shape(self)
    }

    /// The count at `(row, col)`, or `None` where the grid has no such place.
    pub fn get(&self, row: usize, col: usize) -> (count: Option<usize>)
        ensures
            count == if row < self@.len() && col < self@[row as int].len() {
                Some(self@[row as int][col as int])
            } else {
                None
            },
    {
        let (n, m) = grid_shape(self);
        if row < n && col < m {
            Some(read_cell(self, row, col))
        } else {
            None
        }
    }

    /// Adds one to the count at `(row, col)`.
    pub(crate) fn count(&mut self, row: usize, col: usize)
        requires
            row < old(self)@.len(),
            col < old(self)@[row as int].len(),
            old(self)@[row as int][col as int] < usize::MAX,
        ensures
            final(self)@ == old(self)@.update(
                row as int,
                old(self)@[row as int].update(
                    col as int,
                    (old(self)@[row as int][col as int] + 1) as usize,
                ),
            ),
    {
        let before = read_cell(self, row, col);
        write_cell(self, row, col, before + 1);
    }
}

} // verus!
