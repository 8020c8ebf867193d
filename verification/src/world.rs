use vstd::prelude::*;

use crate::matrix::clone_cells;
use crate::matrix::BidimensionalMatrix;

verus! {

/// A cell's contribution to a neighbor count: one when alive, zero when dead.
pub open spec fn count_alive(alive: bool) -> int {
    if alive {
        1
    } else {
        0
    }
}

/// The row or column index just before `i`, wrapping at the dimension `n`:
/// for `0 <= i < n` this is `(i - 1)` taken modulo `n`.
pub open spec fn wrap_prev(i: int, n: int) -> int {
    if i == 0 {
        n - 1
    } else {
        i - 1
    }
}

/// The row or column index just after `i`, wrapping at the dimension `n`:
/// for `0 <= i < n` this is `(i + 1)` taken modulo `n`.
pub open spec fn wrap_next(i: int, n: int) -> int {
    if i + 1 == n {
        0
    } else {
        i + 1
    }
}

/// How many of the eight neighbors of `(i, j)` are alive in `m`, looking the
/// neighbor coordinates up with wraparound addressing.
pub open spec fn alive_neighbors(m: BidimensionalMatrix, i: int, j: int) -> int {
    let up = wrap_prev(i, m.rows as int);
    let down = wrap_next(i, m.rows as int);
    let left = wrap_prev(j, m.columns as int);
    let right = wrap_next(j, m.columns as int);
    count_alive(m.cell(up, left)) + count_alive(m.cell(up, j)) + count_alive(m.cell(up, right))
        + count_alive(m.cell(i, left)) + count_alive(m.cell(i, right)) + count_alive(
        m.cell(down, left),
    ) + count_alive(m.cell(down, j)) + count_alive(m.cell(down, right))
}

/// Whether `(i, j)` lies on the first or last row or column of `m`.
pub open spec fn is_border(m: BidimensionalMatrix, i: int, j: int) -> bool {
    i == 0 || i == m.rows - 1 || j == 0 || j == m.columns - 1
}

/// The state of the cell `(i, j)` in the generation that follows `m`:
/// border cells are forced dead; an interior cell follows Conway's rules
/// (an alive cell survives with two or three alive neighbors, a dead cell
/// is born with exactly three).
pub open spec fn next_value(m: BidimensionalMatrix, i: int, j: int) -> bool {
    if is_border(m, i, j) {
        false
    } else if m.cell(i, j) {
        alive_neighbors(m, i, j) == 2 || alive_neighbors(m, i, j) == 3
    } else {
        alive_neighbors(m, i, j) == 3
    }
}

/// An alive state as a summand for neighbor counting.
fn to_bit(alive: bool) -> (bit: usize)
    ensures
        bit as int == count_alive(alive),
        bit <= 1,
{
    if alive {
        1
    } else {
        0
    }
}

/// The simulation engine: the authoritative generation in `current` and a
/// scratch buffer `next` of the same dimensions, filled completely before it
/// becomes visible as `current`.
pub struct World {
    pub current: BidimensionalMatrix,
    pub next: BidimensionalMatrix,
    pub num_of_rows: usize,
    pub num_of_columns: usize,
}

impl World {
    /// Both matrices are backed by full storage and share the engine's
    /// dimensions.
    pub open spec fn wf(&self) -> bool {
        &&& self.current.wf()
        &&& self.next.wf()
        &&& self.current.rows == self.num_of_rows
        &&& self.current.columns == self.num_of_columns
        &&& self.next.rows == self.num_of_rows
        &&& self.next.columns == self.num_of_columns
    }

    /// Builds an engine whose current generation holds `data`, row-major.
    pub fn new(rows: usize, columns: usize, data: Vec<bool>) -> (world: World)
        requires
            data@.len() == rows * columns,
        ensures
            world.wf(),
            world.num_of_rows == rows,
            world.num_of_columns == columns,
            world.current.data@ == data@,
            world.next.data@ == data@,
    {
        let current = BidimensionalMatrix::new(rows, columns, clone_cells(&data));
        let next = BidimensionalMatrix::new(rows, columns, data);
        World { current, next, num_of_rows: rows, num_of_columns: columns }
    }

    /// How many of the eight neighbors of `(i, j)` are alive in the current
    /// generation, with wraparound addressing.
    #[verifier::rlimit(100)]
    #[verifier::spinoff_prover]
    pub fn get_alive_neighbors(&self, i: usize, j: usize) -> (count: usize)
        requires
            self.wf(),
            i < self.num_of_rows,
            j < self.num_of_columns,
        ensures
            count as int == alive_neighbors(self.current, i as int, j as int),
            count <= 8,
    {
        let rows: usize = self.num_of_rows;
        let columns: usize = self.num_of_columns;
        let up: usize = if i == 0 {
            rows - 1
        } else {
            i - 1
        };
        let down: usize = if i + 1 == rows {
            0
        } else {
            i + 1
        };
        let left: usize = if j == 0 {
            columns - 1
        } else {
            j - 1
        };
        let right: usize = if j + 1 == columns {
            0
        } else {
            j + 1
        };
        proof {
            assert(up as int == wrap_prev(i as int, rows as int));
            assert(down as int == wrap_next(i as int, rows as int));
            assert(left as int == wrap_prev(j as int, columns as int));
            assert(right as int == wrap_next(j as int, columns as int));
        }
        let mut alives: usize = 0;
        alives = alives + to_bit(self.current.get(up, left));
        alives = alives + to_bit(self.current.get(up, j));
        alives = alives + to_bit(self.current.get(up, right));
        alives = alives + to_bit(self.current.get(i, left));
        alives = alives + to_bit(self.current.get(i, right));
        alives = alives + to_bit(self.current.get(down, left));
        alives = alives + to_bit(self.current.get(down, j));
        alives = alives + to_bit(self.current.get(down, right));
        alives
    }

    /// The next generation's value for the cell `(i, j)`: dead on the border,
    /// otherwise Conway's rules over the neighbor count.
    pub fn get_next_value(&self, i: usize, j: usize) -> (value: bool)
        requires
            self.wf(),
            i < self.num_of_rows,
            j < self.num_of_columns,
        ensures
            value == next_value(self.current, i as int, j as int),
    {
        let is_h_border = i == 0 || i == self.num_of_rows - 1;
        let is_v_border = j == 0 || j == self.num_of_columns - 1;
        if is_h_border || is_v_border {
            return false;
        }
        let is_alive = self.current.get(i, j);
        let alives: usize = self.get_alive_neighbors(i, j);
        if is_alive {
            // Rule 1: death by underpopulation; Rule 2: survival;
            // Rule 3: death by overcrowding.
            alives == 2 || alives == 3
        } else {
            // Rule 4: resurrection by reproduction; otherwise stays dead.
            alives == 3
        }
    }

    /// Advances the simulation by exactly one generation: every cell of the
    /// scratch buffer is computed from the current generation before the
    /// result replaces it, so no rule evaluation ever sees a partially
    /// updated grid.
    pub fn step(&mut self)
        requires
            old(self).wf(),
        ensures
            final(self).wf(),
            final(self).num_of_rows == old(self).num_of_rows,
            final(self).num_of_columns == old(self).num_of_columns,
            forall|r: int, c: int|
                0 <= r < old(self).num_of_rows && 0 <= c < old(self).num_of_columns
                    ==> final(self).current.cell(r, c) == next_value(old(self).current, r, c),
    {
        let rows: usize = self.num_of_rows;
        let columns: usize = self.num_of_columns;
        let mut i: usize = 0;
        while i < rows
            invariant
                self.wf(),
                self.num_of_rows == rows,
                self.num_of_columns == columns,
                self.current == old(self).current,
                i <= rows,
                forall|r: int, c: int|
                    0 <= r < i && 0 <= c < columns ==> self.next.cell(r, c) == next_value(
                        old(self).current,
                        r,
                        c,
                    ),
            decreases rows - i,
        {
            let mut j: usize = 0;
            while j < columns
                invariant
                    self.wf(),
                    self.num_of_rows == rows,
                    self.num_of_columns == columns,
                    self.current == old(self).current,
                    i < rows,
                    j <= columns,
                    forall|r: int, c: int|
                        0 <= r < i && 0 <= c < columns ==> self.next.cell(r, c) == next_value(
                            old(self).current,
                            r,
                            c,
                        ),
                    forall|c: int|
                        0 <= c < j ==> self.next.cell(i as int, c) == next_value(
                            old(self).current,
                            i as int,
                            c,
                        ),
                decreases columns - j,
            {
                let value: bool = self.get_next_value(i, j);
                self.next.set(i, j, value);
                j = j + 1;
            }
            i = i + 1;
        }
        self.current = self.next.clone();
    }
}

/// Border rule: after a step every cell of the first or last row or column is
/// dead, whatever the generation it was computed from held.
pub proof fn lemma_border_next_dead(m: BidimensionalMatrix, i: int, j: int)
    requires
        0 <= i < m.rows,
        0 <= j < m.columns,
        is_border(m, i, j),
    ensures
        !next_value(m, i, j),
{
}

/// Stepping an all-dead grid yields an all-dead grid, whatever its size.
pub proof fn lemma_all_dead_stays_dead(m: BidimensionalMatrix, i: int, j: int)
    requires
        0 <= i < m.rows,
        0 <= j < m.columns,
        forall|r: int, c: int| 0 <= r < m.rows && 0 <= c < m.columns ==> !m.cell(r, c),
    ensures
        !next_value(m, i, j),
{
    if !is_border(m, i, j) {
        let rows = m.rows as int;
        let columns = m.columns as int;
        assert(0 <= wrap_prev(i, rows) < rows);
        assert(0 <= wrap_next(i, rows) < rows);
        assert(0 <= wrap_prev(j, columns) < columns);
        assert(0 <= wrap_next(j, columns) < columns);
        assert(alive_neighbors(m, i, j) == 0);
    }
}

/// The transition is a function of the grid content alone: two grids with the
/// same dimensions and the same cell values agree on every next-generation
/// cell, so independently constructed engines with identical content produce
/// identical generation sequences.
pub proof fn lemma_next_value_deterministic(
    a: BidimensionalMatrix,
    b: BidimensionalMatrix,
    i: int,
    j: int,
)
    requires
        a.same_grid(&b),
        0 <= i < a.rows,
        0 <= j < a.columns,
    ensures
        next_value(a, i, j) == next_value(b, i, j),
{
    let rows = a.rows as int;
    let columns = a.columns as int;
    assert(0 <= wrap_prev(i, rows) < rows);
    assert(0 <= wrap_next(i, rows) < rows);
    assert(0 <= wrap_prev(j, columns) < columns);
    assert(0 <= wrap_next(j, columns) < columns);
    assert(alive_neighbors(a, i, j) == alive_neighbors(b, i, j));
}

} // verus!
