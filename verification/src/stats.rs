//! Statistics of a dataset on a lattice: which samples fall on which unit, and how many.
//!
//! The functions take the unit of every sample, as its evaluation gave it, in the order
//! of the dataset.

use crate::grid::{has_columns, CountGrid};
use crate::lattice::{lattice_fits, row_major_order, unit_index, Lattice, LatticeError, MSOM};
use vstd::prelude::*;

verus! {

/// How many of the samples fall on unit `(row, col)`.
pub open spec fn count_of(assignments: Seq<(usize, usize)>, row: nat, col: nat) -> nat
    decreases assignments.len(),
{
    if assignments.len() == 0 {
        0
    } else {
        let before = count_of(assignments.drop_last(), row, col);
        if assignments.last().0 == row && assignments.last().1 == col {
            before + 1
        } else {
            before
        }
    }
}

/// The samples that fall on unit `(row, col)`, by their places in the dataset, in the
/// order of the dataset.
pub open spec fn indices_of(assignments: Seq<(usize, usize)>, row: nat, col: nat) -> Seq<usize>
    decreases assignments.len(),
{
    if assignments.len() == 0 {
        Seq::empty()
    } else {
        let before = indices_of(assignments.drop_last(), row, col);
        if assignments.last().0 == row && assignments.last().1 == col {
            before.push((assignments.len() - 1) as usize)
        } else {
            before
        }
    }
}

/// Whether every sample falls on a unit of the lattice.
pub open spec fn all_within(map: Lattice, assignments: Seq<(usize, usize)>) -> bool {
    forall|i: int|
        0 <= i < assignments.len() ==> map.has_unit(
            (#[trigger] assignments[i]).0 as nat,
            assignments[i].1 as nat,
        )
}

/// Whether a grid has the shape of the lattice and holds, for every unit, the number of
/// samples that fall on it.
pub open spec fn tallies(
    rows: Seq<Seq<usize>>,
    map: Lattice,
    assignments: Seq<(usize, usize)>,
) -> bool {
    &&& rows.len() == map.n
    &&& has_columns(rows, map.m)
    &&& forall|r: int, c: int|
        0 <= r < map.n && 0 <= c < map.m ==> (#[trigger] rows[r][c]) == count_of(
            assignments,
            r as nat,
            c as nat,
        )
}

/// The sum of the numbers of a row.
pub open spec fn row_total(row: Seq<usize>) -> nat
    decreases row.len(),
{
    if row.len() == 0 {
        0
    } else {
        row_total(row.drop_last()) + row.last() as nat
    }
}

/// The sum of the numbers of a grid.
pub open spec fn grid_total(rows: Seq<Seq<usize>>) -> nat
    decreases rows.len(),
{
    if rows.len() == 0 {
        0
    } else {
        grid_total(rows.drop_last()) + row_total(rows.last())
    }
}

/// No unit holds more samples than there are.
pub proof fn count_is_bounded(assignments: Seq<(usize, usize)>, row: nat, col: nat)
    ensures
        count_of(assignments, row, col) <= assignments.len(),
    decreases assignments.len(),
{
    if assignments.len() > 0 {
        count_is_bounded(assignments.drop_last(), row, col);
    }
}

/// Changing one number of a row changes its sum by as much.
pub proof fn row_total_after(row: Seq<usize>, c: int, value: usize)
    requires
        0 <= c < row.len(),
    ensures
        row_total(row.update(c, value)) == row_total(row) - row[c] + value,
    decreases row.len(),
{
    let after = row.update(c, value);
    if c == row.len() - 1 {
        assert(after.drop_last() == row.drop_last());
    } else {
        assert(after.drop_last() == row.drop_last().update(c, value));
        row_total_after(row.drop_last(), c, value);
    }
}

/// Changing one number of a grid changes its sum by as much.
pub proof fn grid_total_after(rows: Seq<Seq<usize>>, r: int, c: int, value: usize)
    requires
        0 <= r < rows.len(),
        0 <= c < rows[r].len(),
    ensures
        grid_total(rows.update(r, rows[r].update(c, value))) == grid_total(rows) - rows[r][c]
            + value,
    decreases rows.len(),
{
    let after = rows.update(r, rows[r].update(c, value));
    if r == rows.len() - 1 {
        assert(after.drop_last() == rows.drop_last());
        row_total_after(rows[r], c, value);
    } else {
        assert(after.drop_last() == rows.drop_last().update(r, rows[r].update(c, value)));
        grid_total_after(rows.drop_last(), r, c, value);
    }
}

/// Every sample is counted once: where each sample falls on a unit of the lattice, the
/// counts of all units add up to the number of samples.
pub proof fn counts_add_up(map: Lattice, assignments: Seq<(usize, usize)>, rows: Seq<Seq<usize>>)
    requires
        all_within(map, assignments),
        tallies(rows, map, assignments),
    ensures
        grid_total(rows) == assignments.len(),
    decreases assignments.len(),
{
    if assignments.len() == 0 {
        zero_grid_total(rows);
    } else {
        let front = assignments.drop_last();
        let r = assignments.last().0 as int;
        let c = assignments.last().1 as int;
        let last = assignments[assignments.len() - 1];
        assert(map.has_unit(last.0 as nat, last.1 as nat));
        let less = (rows[r][c] - 1) as usize;
        let before = rows.update(r, rows[r].update(c, less));
        assert(rows[r][c] == count_of(front, r as nat, c as nat) + 1);
        assert forall|i: int| 0 <= i < front.len() implies map.has_unit(
            (#[trigger] front[i]).0 as nat,
            front[i].1 as nat,
        ) by {
            assert(front[i] == assignments[i]);
        }
        assert(tallies(before, map, front)) by {
            assert forall|a: int, b: int| 0 <= a < map.n && 0 <= b < map.m implies (
            #[trigger] before[a][b]) == count_of(front, a as nat, b as nat) by {
                assert(rows[a][b] == count_of(assignments, a as nat, b as nat));
            }
            assert forall|a: int| 0 <= a < before.len() implies (#[trigger] before[a]).len()
                == map.m by {
                assert(rows[a].len() == map.m);
            }
        }
        counts_add_up(map, front, before);
        grid_total_after(rows, r, c, less);
    }
}

/// A grid that holds zero everywhere has the sum zero.
pub proof fn zero_grid_total(rows: Seq<Seq<usize>>)
    requires
        forall|r: int, c: int|
            0 <= r < rows.len() && 0 <= c < rows[r].len() ==> (#[trigger] rows[r][c]) == 0,
    ensures
        grid_total(rows) == 0,
    decreases rows.len(),
{
    if rows.len() > 0 {
        zero_grid_total(rows.drop_last());
        zero_row_total(rows.last());
    }
}

/// A row that holds zero everywhere has the sum zero.
pub proof fn zero_row_total(row: Seq<usize>)
    requires
        forall|c: int| 0 <= c < row.len() ==> #[trigger] row[c] == 0,
    ensures
        row_total(row) == 0,
    decreases row.len(),
{
    if row.len() > 0 {
        zero_row_total(row.drop_last());
    }
}

/// What `indices_of` lists: the places of the samples that fall on the unit, each once,
/// in rising order; as many as `count_of` counts.
pub proof fn indices_are_members(assignments: Seq<(usize, usize)>, row: nat, col: nat)
    requires
        assignments.len() <= usize::MAX,
    ensures
        indices_of(assignments, row, col).len() == count_of(assignments, row, col),
        forall|k: int|
            0 <= k < indices_of(assignments, row, col).len() ==> {
                let i = #[trigger] indices_of(assignments, row, col)[k];
                i < assignments.len() && assignments[i as int].0 == row && assignments[i as int].1
                    == col
            },
        forall|j: int, k: int|
            0 <= j < k < indices_of(assignments, row, col).len() ==> indices_of(
                assignments,
                row,
                col,
            )[j] < indices_of(assignments, row, col)[k],
        forall|i: int|
            0 <= i < assignments.len() && (#[trigger] assignments[i]).0 == row && assignments[i].1
                == col ==> indices_of(assignments, row, col).contains(i as usize),
    decreases assignments.len(),
{
    if assignments.len() > 0 {
        let front = assignments.drop_last();
        let last = (assignments.len() - 1) as usize;
        indices_are_members(front, row, col);
        let listed = indices_of(assignments, row, col);
        let before = indices_of(front, row, col);
        assert forall|k: int| 0 <= k < listed.len() implies {
            let i = #[trigger] listed[k];
            i < assignments.len() && assignments[i as int].0 == row && assignments[i as int].1
                == col
        } by {
            if k < before.len() {
                assert(listed[k] == before[k]);
                assert(front[before[k] as int] == assignments[before[k] as int]);
            }
        }
        assert forall|j: int, k: int| 0 <= j < k < listed.len() implies listed[j] < listed[k] by {
            assert(listed[j] == before[j]);
            if k < before.len() {
                assert(listed[k] == before[k]);
            }
        }
        assert forall|i: int|
            0 <= i < assignments.len() && (#[trigger] assignments[i]).0 == row && assignments[i].1
                == col implies listed.contains(i as usize) by {
            if i < front.len() {
                assert(front[i] == assignments[i]);
                let k = choose|k: int| 0 <= k < before.len() && before[k] == i as usize;
                assert(listed[k] == i as usize);
            } else {
                assert(listed[listed.len() - 1] == last);
            }
        }
    }
}

impl MSOM {
    /// The number of samples on each unit, as a grid of the shape of the lattice.
    ///
    /// `assignments` holds the unit of every sample. The counts of all units add up to
    /// the number of samples. Fails with `UnitOutOfRange` where a sample is said to fall
    /// on a unit that the lattice does not have.
    pub fn reception_field_count(&self, assignments: &Vec<(usize, usize)>) -> (counted: Result<
        CountGrid,
        LatticeError,
    >)
        ensures
            match counted {
                Ok(grid) => {
                    &&& all_within(self@, assignments@)
                    &&& tallies(grid@, self@, assignments@)
                    &&& grid_total(grid@) == assignments@.len()
                },
                Err(LatticeError::UnitOutOfRange) => !all_within(self@, assignments@),
                Err(_) => false,
            },
    {
        proof {
            use_type_invariant(self);
            lattice_fits(self@.n, self@.m, self@.width);
        }
        let n = self.n();
        let m = self.m();
        let mut grid = CountGrid::zeros(n, m);
        proof {
            zero_grid_total(grid@);
        }
        let mut i: usize = 0;
        while i < assignments.len()
            invariant
                i <= assignments.len(),
                n == self@.n,
                m == self@.m,
                all_within(self@, assignments@.take(i as int)),
                tallies(grid@, self@, assignments@.take(i as int)),
                grid_total(grid@) == i,
            decreases assignments.len() - i,
        {
            let (row, col) = assignments[i];
            if row >= n || col >= m {
                assert(!self@.has_unit(
                    assignments@[i as int].0 as nat,
                    assignments@[i as int].1 as nat,
                ));
                return Err(LatticeError::UnitOutOfRange);
            }
            let ghost seen = assignments@.take(i as int);
            let ghost next = assignments@.take(i + 1);
            let ghost before = grid@;
            proof {
                assert(next.drop_last() == seen);
                assert(next.last() == assignments@[i as int]);
                count_is_bounded(seen, row as nat, col as nat);
                assert(before[row as int][col as int] == count_of(seen, row as nat, col as nat));
                assert(before[row as int].len() == m);
                grid_total_after(
                    before,
                    row as int,
                    col as int,
                    (before[row as int][col as int] + 1) as usize,
                );
            }
            grid.count(row, col);
            proof {
                assert forall|j: int| 0 <= j < next.len() implies self@.has_unit(
                    (#[trigger] next[j]).0 as nat,
                    next[j].1 as nat,
                ) by {
                    if j < i {
                        assert(seen[j] == next[j]);
                    }
                }
                assert forall|r: int, c: int| 0 <= r < n && 0 <= c < m implies (
                #[trigger] grid@[r][c]) == count_of(next, r as nat, c as nat) by {
                    assert(before[r][c] == count_of(seen, r as nat, c as nat));
                }
                assert forall|r: int| 0 <= r < grid@.len() implies (#[trigger] grid@[r]).len()
                    == m by {
                    assert(before[r].len() == m);
                }
            }
            i += 1;
        }
        assert(assignments@.take(assignments.len() as int) == assignments@);
        Ok(grid)
    }

    /// The samples on each unit: for every unit, in row-major order, the places in the
    /// dataset of the samples that fall on it, in the order of the dataset.
    ///
    /// `assignments` holds the unit of every sample. Fails with `UnitOutOfRange` where a
    /// sample is said to fall on a unit that the lattice does not have.
    pub fn members(&self, assignments: &Vec<(usize, usize)>) -> (grouped: Result<
        Vec<Vec<usize>>,
        LatticeError,
    >)
        ensures
            match grouped {
                Ok(groups) => {
                    &&& all_within(self@, assignments@)
                    &&& groups@.len() == self@.units()
                    &&& forall|r: nat, c: nat|
                        self@.has_unit(r, c) ==> (#[trigger] groups@[unit_index(
                            self@.m,
                            r,
                            c,
                        ) as int])@ == indices_of(assignments@, r, c)
                },
                Err(LatticeError::UnitOutOfRange) => !all_within(self@, assignments@),
                Err(_) => false,
            },
    {
        proof {
            use_type_invariant(self);
            lattice_fits(self@.n, self@.m, self@.width);
        }
        let n = self.n();
        let m = self.m();
        let units = n * m;
        let mut groups: Vec<Vec<usize>> = Vec::new();
        let mut u: usize = 0;
        while u < units
            invariant
                u <= units,
                groups@.len() == u,
                forall|k: int| 0 <= k < u ==> (#[trigger] groups@[k])@ == Seq::<usize>::empty(),
            decreases units - u,
        {
            groups.push(Vec::new());
            u += 1;
        }
        proof {
            assert forall|r: nat, c: nat| r < n && c < m implies (#[trigger] groups@[unit_index(
                m as nat,
                r,
                c,
            ) as int])@ == indices_of(assignments@.take(0), r, c) by {
                crate::lattice::unit_slice_in_bounds(n as nat, m as nat, 1, r, c);
            }
        }
        let mut i: usize = 0;
        while i < assignments.len()
            invariant
                i <= assignments.len(),
                n == self@.n,
                m == self@.m,
                units == n * m,
                groups@.len() == units,
                all_within(self@, assignments@.take(i as int)),
                forall|r: nat, c: nat|
                    r < n && c < m ==> (#[trigger] groups@[unit_index(m as nat, r, c) as int])@
                        == indices_of(assignments@.take(i as int), r, c),
            decreases assignments.len() - i,
        {
            let (row, col) = assignments[i];
            if row >= n || col >= m {
                assert(!self@.has_unit(
                    assignments@[i as int].0 as nat,
                    assignments@[i as int].1 as nat,
                ));
                return Err(LatticeError::UnitOutOfRange);
            }
            let ghost seen = assignments@.take(i as int);
            let ghost next = assignments@.take(i + 1);
            let ghost before = groups@;
            proof {
                assert(next.drop_last() == seen);
                assert(next.last() == assignments@[i as int]);
                crate::lattice::unit_slice_in_bounds(n as nat, m as nat, 1, row as nat, col as nat);
            }
            let place = row * m + col;
            groups[place].push(i);
            proof {
                assert forall|j: int| 0 <= j < next.len() implies self@.has_unit(
                    (#[trigger] next[j]).0 as nat,
                    next[j].1 as nat,
                ) by {
                    if j < i {
                        assert(seen[j] == next[j]);
                    }
                }
                assert forall|r: nat, c: nat| r < n && c < m implies (#[trigger] groups@[unit_index(
                    m as nat,
                    r,
                    c,
                ) as int])@ == indices_of(next, r, c) by {
                    row_major_order(m as nat, r, c, row as nat, col as nat);
                    crate::lattice::unit_slice_in_bounds(n as nat, m as nat, 1, r, c);
                    assert(before[unit_index(m as nat, r, c) as int]@ == indices_of(seen, r, c));
                }
            }
            i += 1;
        }
        assert(assignments@.take(assignments.len() as int) == assignments@);
        Ok(groups)
    }
}

} // verus!
