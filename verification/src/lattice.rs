//! The lattice: an `n` by `m` grid of units, each with a current and a context weight
//! vector of `map_input_size` values.

use crate::order::{all_numbers, argmin, first_minimum, first_minimum_of_equals, order_key};
use vstd::prelude::*;

verus! {

/// Why a lattice of the requested shape cannot be made.
#[derive(Clone, Copy, Debug, PartialEq, Eq, Structural)]
pub enum ConfigError {
    /// The lattice would have no rows.
    ZeroRows,
    /// The lattice would have no columns.
    ZeroColumns,
    /// The weight vectors would be empty.
    ZeroWidth,
    /// The number of weights, `n * m * map_input_size`, is more than `isize::MAX`, the
    /// most that an array can hold.
    TooLarge,
}

/// Why the lattice turns a request down.
#[derive(Clone, Copy, Debug, PartialEq, Eq, Structural)]
pub enum LatticeError {
    /// A vector does not have the length that the shape of the lattice asks for.
    ShapeMismatch,
    /// An error value is no number, so the errors have no least one.
    UndefinedOrder,
    /// The event is not the one that the run waits for.
    OutOfTurn,
    /// A unit lies outside the lattice.
    UnitOutOfRange,
}

/// A sequence of `len` zeros.
pub open spec fn zeros(len: nat) -> Seq<u32> {
    Seq::new(len, |i: int| 0u32)
}

/// The place of unit `(row, col)` in row-major order on a lattice of `m` columns.
pub open spec fn unit_index(m: nat, row: nat, col: nat) -> nat {
    row * m + col
}

/// The number that a row-major sequence of distances holds for unit `(row, col)`.
pub open spec fn distance_at(distances: Seq<u128>, m: nat, row: nat, col: nat) -> u128 {
    distances[unit_index(m, row, col) as int]
}

/// The square of the Euclidean distance between two units on the grid.
pub open spec fn grid_dist_squared(a: (nat, nat), b: (nat, nat)) -> nat {
    ((a.0 - b.0) * (a.0 - b.0) + (a.1 - b.1) * (a.1 - b.1)) as nat
}

/// A lattice of `n` rows and `m` columns whose units hold two weight vectors of
/// `map_input_size` values each.
///
/// Both weight arrays are stored in row-major order, unit after unit, as the bit
/// patterns of single-precision numbers. The two arrays always have the shape of the
/// lattice.
#[derive(Debug)]
pub struct MSOM {
    n: usize,
    m: usize,
    map_input_size: usize,
    som: Vec<u32>,
    context: Vec<u32>,
}

/// What a lattice is, as plain mathematics.
pub struct Lattice {
    /// The number of rows.
    pub n: nat,
    /// The number of columns.
    pub m: nat,
    /// The length of every weight vector.
    pub width: nat,
    /// The current weights, unit after unit in row-major order.
    pub current: Seq<u32>,
    /// The context weights, laid out as the current weights are.
    pub context: Seq<u32>,
}

impl Lattice {
    /// The number of units.
    pub open spec fn units(self) -> nat {
        self.n * self.m
    }

    /// The number of weights in each of the two arrays.
    pub open spec fn weights(self) -> nat {
        self.n * self.m * self.width
    }

    /// No dimension is zero, the weights of an array are no more than `isize::MAX`, and
    /// each weight array holds one vector per unit.
    pub open spec fn wf(self) -> bool {
        &&& self.n > 0
        &&& self.m > 0
        &&& self.width > 0
        &&& self.weights() <= isize::MAX
        &&& self.current.len() == self.weights()
        &&& self.context.len() == self.weights()
    }

    /// Whether `(row, col)` is a unit of the lattice.
    pub open spec fn has_unit(self, row: nat, col: nat) -> bool {
        row < self.n && col < self.m
    }

    /// The unit at a row-major place.
    pub open spec fn unit_at(self, index: nat) -> (nat, nat) {
        (index / self.m, index % self.m)
    }

    /// The current weight vector of a unit.
    pub open spec fn current_of(self, row: nat, col: nat) -> Seq<u32> {
        unit_slice(self.current, self.m, self.width, row, col)
    }

    /// The context weight vector of a unit.
    pub open spec fn context_of(self, row: nat, col: nat) -> Seq<u32> {
        unit_slice(self.context, self.m, self.width, row, col)
    }

    /// The same lattice with other weights.
    pub open spec fn with_weights(self, current: Seq<u32>, context: Seq<u32>) -> Lattice {
        Lattice { current, context, ..self }
    }
}

impl View for MSOM {
    type V = Lattice;

    closed spec fn view(&self) -> Lattice {
        Lattice {
            n: self.n as nat,
            m: self.m as nat,
            width: self.map_input_size as nat,
            current: self.som@,
            context: self.context@,
        }
    }
}

impl Clone for MSOM {
    /// A lattice of the same shape with the same weights.
    fn clone(&self) -> (copy: MSOM)
        ensures
            copy@ == self@,
    {
        proof {
            use_type_invariant(self);
        }
        let som = self.som.clone();
        let context = self.context.clone();
        assert(som@ =~= self.som@);
        assert(context@ =~= self.context@);
        MSOM { n: self.n, m: self.m, map_input_size: self.map_input_size, som, context }
    }
}

impl MSOM {
    /// What holds of every value of this type.
    #[verifier::type_invariant]
    pub open spec fn inv(&self) -> bool {
        self@.wf()
    }

    /// A lattice of the given shape with all weights zero.
    ///
    /// Fails where a dimension is zero, naming the first such among rows, columns and
    /// width, and where an array would hold more weights than `isize::MAX`.
    pub fn new(n: usize, m: usize, map_input_size: usize) -> (made: Result<MSOM, ConfigError>)
        ensures
            match made {
                Ok(map) => {
                    &&& n > 0 && m > 0 && map_input_size > 0
                    &&& n * m * map_input_size <= isize::MAX
                    &&& map@.wf()
                    &&& map@.n == n
                    &&& map@.m == m
                    &&& map@.width == map_input_size
                    &&& map@.current == zeros(map@.weights())
                    &&& map@.context == zeros(map@.weights())
                },
                Err(ConfigError::ZeroRows) => n == 0,
                Err(ConfigError::ZeroColumns) => n > 0 && m == 0,
                Err(ConfigError::ZeroWidth) => n > 0 && m > 0 && map_input_size == 0,
                Err(ConfigError::TooLarge) => {
                    &&& n > 0 && m > 0 && map_input_size > 0
                    &&& n * m * map_input_size > isize::MAX
                },
            },
    {
        if n == 0 {
            return Err(ConfigError::ZeroRows);
        }
        if m == 0 {
            return Err(ConfigError::ZeroColumns);
        }
        if map_input_size == 0 {
            return Err(ConfigError::ZeroWidth);
        }
        let units = match n.checked_mul(m) {
            Some(units) => units,
            None => {
                assert(n * m * map_input_size >= n * m) by (nonlinear_arith)
                    requires
                        map_input_size >= 1,
                        n * m >= 0,
                ;
                return Err(ConfigError::TooLarge);
            },
        };
        let len = match units.checked_mul(map_input_size) {
            Some(len) => len,
            None => {
                return Err(ConfigError::TooLarge);
            },
        };
        if len > isize::MAX as usize {
            return Err(ConfigError::TooLarge);
        }
        let som = vec![0u32; len];
        let context = vec![0u32; len];
        assert(som@ == zeros(len as nat));
        assert(context@ == zeros(len as nat));
        Ok(MSOM { n, m, map_input_size, som, context })
    }

    /// The number of rows.
    pub fn n(&self) -> (n: usize)
        ensures
            n == self@.n,
            n > 0,
    {
        proof {
            use_type_invariant(self);
        }
        self.n
    }

    /// The number of columns.
    pub fn m(&self) -> (m: usize)
        ensures
            m == self@.m,
            m > 0,
    {
        proof {
            use_type_invariant(self);
        }
        self.m
    }

    /// The length of every weight vector and of every chunk.
    pub fn map_input_size(&self) -> (width: usize)
        ensures
            width == self@.width,
            width > 0,
    {
        proof {
            use_type_invariant(self);
        }
        self.map_input_size
    }

    /// The current weights: `n * m * map_input_size` patterns in row-major order.
    pub fn som(&self) -> (weights: &Vec<u32>)
        ensures
            weights@ == self@.current,
            weights@.len() == self@.weights(),
    {
        proof {
            use_type_invariant(self);
        }
        &self.som
    }

    /// The context weights, laid out as the current weights are.
    pub fn context(&self) -> (weights: &Vec<u32>)
        ensures
            weights@ == self@.context,
            weights@.len() == self@.weights(),
    {
        proof {
            use_type_invariant(self);
        }
        &self.context
    }

    /// The place of unit `(row, col)` in row-major order, where the lattice has that
    /// unit: the place of its errors, distances and members, and the number of whole
    /// weight vectors before its own.
    pub fn place(&self, row: usize, col: usize) -> (found: Result<usize, LatticeError>)
        ensures
            match found {
                Ok(index) => {
                    &&& self@.has_unit(row as nat, col as nat)
                    &&& index == unit_index(self@.m, row as nat, col as nat)
                    &&& index < self@.units()
                },
                Err(LatticeError::UnitOutOfRange) => !self@.has_unit(row as nat, col as nat),
                Err(_) => false,
            },
    {
        proof {
            use_type_invariant(self);
            lattice_fits(self.n as nat, self.m as nat, self.map_input_size as nat);
        }
        if row >= self.n || col >= self.m {
            return Err(LatticeError::UnitOutOfRange);
        }
        proof {
            unit_slice_in_bounds(self.n as nat, self.m as nat, 1, row as nat, col as nat);
        }
        Ok(row * self.m + col)
    }

    /// Replaces both weight arrays.
    ///
    /// The arrays must have the shape of the lattice, `n * m * map_input_size` patterns
    /// each; otherwise the lattice stays as it is.
    pub fn store(&mut self, som: Vec<u32>, context: Vec<u32>) -> (done: Result<(), LatticeError>)
        ensures
            match done {
                Ok(()) => {
                    &&& som@.len() == old(self)@.weights()
                    &&& context@.len() == old(self)@.weights()
                    &&& final(self)@ == old(self)@.with_weights(som@, context@)
                },
                Err(LatticeError::ShapeMismatch) => {
                    &&& (som@.len() != old(self)@.weights() || context@.len() != old(
                        self,
                    )@.weights())
                    &&& *final(self) == *old(self)
                },
                Err(_) => false,
            },
        no_unwind
    {
        proof {
            use_type_invariant(&*self);
        }
        if som.len() != self.som.len() || context.len() != self.context.len() {
            return Err(LatticeError::ShapeMismatch);
        }
        self.som = som;
        self.context = context;
        Ok(())
    }

    /// The two weight vectors of unit `(row, col)`: its current weights, then its
    /// context weights.
    pub fn unit_weights(&self, row: usize, col: usize) -> (found: Result<
        (Vec<u32>, Vec<u32>),
        LatticeError,
    >)
        ensures
            match found {
                Ok((current, context)) => {
                    &&& self@.has_unit(row as nat, col as nat)
                    &&& current@ == self@.current_of(row as nat, col as nat)
                    &&& context@ == self@.context_of(row as nat, col as nat)
                    &&& current@.len() == self@.width
                    &&& context@.len() == self@.width
                },
                Err(LatticeError::UnitOutOfRange) => !self@.has_unit(row as nat, col as nat),
                Err(_) => false,
            },
    {
        if row >= self.n || col >= self.m {
            return Err(LatticeError::UnitOutOfRange);
        }
        Ok(self.weights_at(row, col))
    }

    /// The two weight vectors of a unit of the lattice.
    pub(crate) fn weights_at(&self, row: usize, col: usize) -> (found: (Vec<u32>, Vec<u32>))
        requires
            self@.has_unit(row as nat, col as nat),
        ensures
            found.0@ == self@.current_of(row as nat, col as nat),
            found.1@ == self@.context_of(row as nat, col as nat),
            found.0@.len() == self@.width,
            found.1@.len() == self@.width,
    {
        proof {
            use_type_invariant(self);
            unit_slice_in_bounds(
                self.n as nat,
                self.m as nat,
                self.map_input_size as nat,
                row as nat,
                col as nat,
            );
            lattice_fits(self.n as nat, self.m as nat, self.map_input_size as nat);
            assert((row * self.m + col) * self.map_input_size <= (row * self.m + col)
                * self.map_input_size + self.map_input_size);
        }
        let start = (row * self.m + col) * self.map_input_size;
        let mut current: Vec<u32> = Vec::new();
        let mut context: Vec<u32> = Vec::new();
        let mut k: usize = 0;
        while k < self.map_input_size
            invariant
                k <= self.map_input_size,
                start + self.map_input_size <= self.som.len(),
                self.som@.len() == self.context@.len(),
                current@ == self.som@.subrange(start as int, start + k),
                context@ == self.context@.subrange(start as int, start + k),
            decreases self.map_input_size - k,
        {
            current.push(self.som[start + k]);
            context.push(self.context[start + k]);
            k += 1;
        }
        (current, context)
    }

    /// The best-matching unit for the errors of all units, given in row-major order: the
    /// first unit, row by row, whose error is least.
    ///
    /// Fails with `ShapeMismatch` where `errors` does not hold one value per unit, and
    /// with `UndefinedOrder` where one of the values is no number.
    pub fn winner(&self, errors: &Vec<u32>) -> (found: Result<(usize, usize), LatticeError>)
        ensures
            match found {
                Ok((row, col)) => {
                    &&& errors@.len() == self@.units()
                    &&& all_numbers(errors@)
                    &&& self@.has_unit(row as nat, col as nat)
                    &&& (row as nat, col as nat) == self@.unit_at(first_minimum(errors@) as nat)
                    &&& unit_index(self@.m, row as nat, col as nat) == first_minimum(errors@)
                },
                Err(LatticeError::ShapeMismatch) => errors@.len() != self@.units(),
                Err(LatticeError::UndefinedOrder) => {
                    &&& errors@.len() == self@.units()
                    &&& !all_numbers(errors@)
                },
                Err(_) => false,
            },
    {
        proof {
            use_type_invariant(self);
            lattice_fits(self.n as nat, self.m as nat, self.map_input_size as nat);
        }
        if errors.len() != self.n * self.m {
            return Err(LatticeError::ShapeMismatch);
        }
        match argmin(errors) {
            Some(at) => {
                proof {
                    unit_of_index(self.n as nat, self.m as nat, at as nat);
                }
                Ok((at / self.m, at % self.m))
            },
            None => Err(LatticeError::UndefinedOrder),
        }
    }

    /// The squared grid distance of every unit to unit `(row, col)`, in row-major order.
    pub fn neighbourhood(&self, row: usize, col: usize) -> (found: Result<Vec<u128>, LatticeError>)
        ensures
            match found {
                Ok(distances) => {
                    &&& self@.has_unit(row as nat, col as nat)
                    &&& distances@.len() == self@.units()
                    &&& forall|r: nat, c: nat|
                        self@.has_unit(r, c) ==> distance_at(distances@, self@.m, r, c)
                            == grid_dist_squared((r, c), (row as nat, col as nat))
                },
                Err(LatticeError::UnitOutOfRange) => !self@.has_unit(row as nat, col as nat),
                Err(_) => false,
            },
    {
        proof {
            use_type_invariant(self);
        }
        if row >= self.n || col >= self.m {
            return Err(LatticeError::UnitOutOfRange);
        }
        proof {
            lattice_fits(self.n as nat, self.m as nat, self.map_input_size as nat);
        }
        let mut distances: Vec<u128> = Vec::new();
        let mut r: usize = 0;
        while r < self.n
            invariant
                r <= self.n,
                row < self.n,
                col < self.m,
                self.n * self.m <= usize::MAX,
                distances@.len() == r * self.m,
                forall|a: nat, b: nat|
                    a < r && b < self.m ==> distance_at(distances@, self.m as nat, a, b)
                        == grid_dist_squared((a, b), (row as nat, col as nat)),
            decreases self.n - r,
        {
            let mut c: usize = 0;
            while c < self.m
                invariant
                    c <= self.m,
                    r < self.n,
                    row < self.n,
                    col < self.m,
                    self.n * self.m <= usize::MAX,
                    distances@.len() == r * self.m + c,
                    forall|a: nat, b: nat|
                        (a < r && b < self.m) || (a == r && b < c) ==> distance_at(
                            distances@,
                            self.m as nat,
                            a,
                            b,
                        ) == grid_dist_squared((a, b), (row as nat, col as nat)),
                decreases self.m - c,
            {
                let ghost before = distances@;
                let d = dist_squared(self.n, self.m, (r, c), (row, col));
                distances.push(d);
                assert forall|a: nat, b: nat|
                    (a < r && b < self.m) || (a == r && b < c + 1) implies distance_at(
                    distances@,
                    self.m as nat,
                    a,
                    b,
                ) == grid_dist_squared((a, b), (row as nat, col as nat)) by {
                    row_major_order(self.m as nat, a, b, r as nat, c as nat);
                    if !(a == r && b == c) {
                        assert(distance_at(distances@, self.m as nat, a, b) == distance_at(
                            before,
                            self.m as nat,
                            a,
                            b,
                        ));
                    }
                }
                c += 1;
            }
            assert(r * self.m + self.m == (r + 1) * self.m) by (nonlinear_arith);
            r += 1;
        }
        Ok(distances)
    }
}

/// Where the errors of all units are equal, the first unit of the lattice wins.
pub proof fn equal_errors_first_unit(map: Lattice, errors: Seq<u32>)
    requires
        map.wf(),
        errors.len() == map.units(),
        forall|i: int, j: int|
            0 <= i < errors.len() && 0 <= j < errors.len() ==> order_key(#[trigger] errors[i])
                == order_key(#[trigger] errors[j]),
    ensures
        map.unit_at(first_minimum(errors) as nat) == (0nat, 0nat),
{
    lattice_fits(map.n, map.m, map.width);
    first_minimum_of_equals(errors);
    unit_of_index(map.n, map.m, 0);
}

/// The weight vector of unit `(row, col)` within an array laid out in row-major order.
pub open spec fn unit_slice(weights: Seq<u32>, m: nat, width: nat, row: nat, col: nat) -> Seq<u32> {
    weights.subrange(
        (unit_index(m, row, col) * width) as int,
        (unit_index(m, row, col) * width + width) as int,
    )
}

/// A lattice has at least one unit, no more rows or columns than units, and no more
/// units than weights per array.
pub proof fn lattice_fits(n: nat, m: nat, width: nat)
    requires
        n > 0,
        m > 0,
        width > 0,
    ensures
        1 <= n * m <= n * m * width,
        n <= n * m,
        m <= n * m,
{
    assert(1 <= n * m && n <= n * m && m <= n * m) by (nonlinear_arith)
        requires
            n >= 1,
            m >= 1,
    ;
    assert(n * m <= n * m * width) by (nonlinear_arith)
        requires
            width >= 1,
            n * m >= 0,
    ;
}

/// On an `n` by `m` lattice, the weight vector of every unit lies within an array of
/// `n * m * width` values.
pub proof fn unit_slice_in_bounds(n: nat, m: nat, width: nat, row: nat, col: nat)
    requires
        row < n,
        col < m,
    ensures
        unit_index(m, row, col) < n * m,
        unit_index(m, row, col) * width + width <= n * m * width,
{
    assert(row * m + col < n * m) by (nonlinear_arith)
        requires
            row < n,
            col < m,
    ;
    assert((row * m + col) * width + width <= n * m * width) by (nonlinear_arith)
        requires
            row * m + col < n * m,
    ;
}

/// Every place below `n * m` is the row-major place of one unit of the lattice, whose
/// row is the quotient and whose column the remainder by `m`.
pub proof fn unit_of_index(n: nat, m: nat, index: nat)
    requires
        m > 0,
        index < n * m,
    ensures
        index / m < n,
        index % m < m,
        unit_index(m, index / m, index % m) == index,
{
    vstd::arithmetic::div_mod::lemma_fundamental_div_mod(index as int, m as int);
    assert(index / m < n) by (nonlinear_arith)
        requires
            m > 0,
            index < n * m,
            index == m * (index / m) + index % m,
            0 <= index % m < m,
    ;
    assert(m * (index / m) == (index / m) * m) by (nonlinear_arith);
}

/// Row-major places follow the order of the units: first by row, then by column.
pub proof fn row_major_order(m: nat, a: nat, b: nat, r: nat, c: nat)
    requires
        b < m,
        c < m,
    ensures
        (a < r || (a == r && b < c)) <==> unit_index(m, a, b) < unit_index(m, r, c),
        (a == r && b == c) <==> unit_index(m, a, b) == unit_index(m, r, c),
{
    if a < r {
        assert(a * m + m <= r * m) by (nonlinear_arith)
            requires
                a < r,
        ;
    } else if r < a {
        assert(r * m + m <= a * m) by (nonlinear_arith)
            requires
                r < a,
        ;
    }
}

/// The squared grid distance between two units of an `n` by `m` lattice.
pub(crate) fn dist_squared(n: usize, m: usize, a: (usize, usize), b: (usize, usize)) -> (d: u128)
    requires
        n * m <= usize::MAX,
        a.0 < n && b.0 < n,
        a.1 < m && b.1 < m,
    ensures
        d == grid_dist_squared((a.0 as nat, a.1 as nat), (b.0 as nat, b.1 as nat)),
{
    let dr: u128 = if a.0 >= b.0 {
        (a.0 - b.0) as u128
    } else {
        (b.0 - a.0) as u128
    };
    let dc: u128 = if a.1 >= b.1 {
        (a.1 - b.1) as u128
    } else {
        (b.1 - a.1) as u128
    };
    proof {
        assert(dr + dc < n * m) by (nonlinear_arith)
            requires
                dr < n,
                dc < m,
        ;
        assert(dr * dr + dc * dc <= (dr + dc) * (dr + dc)) by (nonlinear_arith)
            requires
                dr >= 0,
                dc >= 0,
        ;
        assert((dr + dc) * (dr + dc) <= 0xffff_ffff_ffff_ffff * 0xffff_ffff_ffff_ffff)
            by (nonlinear_arith)
            requires
                0 <= dr + dc <= 0xffff_ffff_ffff_ffff,
        ;
        assert(dr * dr <= dr * dr + dc * dc) by (nonlinear_arith);
        assert(dc * dc >= 0) by (nonlinear_arith);
        assert((a.0 - b.0) * (a.0 - b.0) == dr * dr) by (nonlinear_arith)
            requires
                dr == a.0 - b.0 || dr == b.0 - a.0,
        ;
        assert((a.1 - b.1) * (a.1 - b.1) == dc * dc) by (nonlinear_arith)
            requires
                dc == a.1 - b.1 || dc == b.1 - a.1,
        ;
    }
    dr * dr + dc * dc
}

} // verus!
