use vstd::prelude::*;

verus! {

/// A dense two-dimensional boolean matrix with fixed dimensions.
///
/// The cells are stored row-major in a flat vector: the cell at
/// `(row, column)` lives at index `row * columns + column`.
pub struct BidimensionalMatrix {
    pub rows: usize,
    pub columns: usize,
    pub data: Vec<bool>,
}

/// A row-major position is a valid index: it stays below `rows * columns`.
pub proof fn lemma_flat_index_in_range(row: int, column: int, rows: int, columns: int)
    by (nonlinear_arith)
    requires
        0 <= row < rows,
        0 <= column < columns,
    ensures
        0 <= row * columns + column < rows * columns,
{
}

/// Distinct coordinates map to distinct row-major positions.
pub proof fn lemma_flat_index_injective(
    r1: int,
    c1: int,
    r2: int,
    c2: int,
    columns: int,
)
    by (nonlinear_arith)
    requires
        0 <= c1 < columns,
        0 <= c2 < columns,
        0 <= r1,
        0 <= r2,
        !(r1 == r2 && c1 == c2),
    ensures
        r1 * columns + c1 != r2 * columns + c2,
{
}

impl BidimensionalMatrix {
    /// The backing storage holds exactly one value per coordinate.
    pub open spec fn wf(&self) -> bool {
        self.data@.len() == self.rows * self.columns
    }

    /// The alive state stored for the cell at `(row, column)`.
    pub open spec fn cell(&self, row: int, column: int) -> bool {
        self.data@[row * self.columns + column]
    }

    /// Both matrices have the same dimensions and the same cell values.
    pub open spec fn same_grid(&self, other: &BidimensionalMatrix) -> bool {
        &&& self.rows == other.rows
        &&& self.columns == other.columns
        &&& forall|r: int, c: int|
            0 <= r < self.rows && 0 <= c < self.columns ==> self.cell(r, c) == other.cell(r, c)
    }

    pub fn new(rows: usize, columns: usize, data: Vec<bool>) -> (m: BidimensionalMatrix)
        requires
            data@.len() == rows * columns,
        ensures
            m.wf(),
            m.rows == rows,
            m.columns == columns,
            m.data@ == data@,
    {
        BidimensionalMatrix { rows, columns, data }
    }

    pub fn get(&self, x: usize, y: usize) -> (value: bool)
        requires
            self.wf(),
            x < self.rows,
            y < self.columns,
        ensures
            value == self.cell(x as int, y as int),
    {
        // Reading the length shows the verifier that every in-range
        // row-major position, being below it, fits in usize.
        let _length: usize = self.data.len();
        proof {
            lemma_flat_index_in_range(x as int, y as int, self.rows as int, self.columns as int);
        }
        let position: usize = x * self.columns + y;
        self.data[position]
    }

    pub fn set(&mut self, x: usize, y: usize, value: bool)
        requires
            old(self).wf(),
            x < old(self).rows,
            y < old(self).columns,
        ensures
            final(self).wf(),
            final(self).rows == old(self).rows,
            final(self).columns == old(self).columns,
            final(self).cell(x as int, y as int) == value,
            forall|r: int, c: int|
                0 <= r < old(self).rows && 0 <= c < old(self).columns && !(r == x && c == y)
                    ==> final(self).cell(r, c) == old(self).cell(r, c),
    {
        // Reading the length shows the verifier that every in-range
        // row-major position, being below it, fits in usize.
        let _length: usize = self.data.len();
        proof {
            lemma_flat_index_in_range(x as int, y as int, self.rows as int, self.columns as int);
        }
        let position: usize = x * self.columns + y;
        self.data[position] = value;
        proof {
            assert forall|r: int, c: int|
                0 <= r < old(self).rows && 0 <= c < old(self).columns && !(r == x && c == y)
                    implies self.cell(r, c) == old(self).cell(r, c) by {
                lemma_flat_index_in_range(r, c, old(self).rows as int, old(self).columns as int);
                lemma_flat_index_injective(r, c, x as int, y as int, self.columns as int);
            }
        }
    }

    /// Deep copy: independent storage, same dimensions and content.
    pub fn clone(&self) -> (m: BidimensionalMatrix)
        ensures
            m.rows == self.rows,
            m.columns == self.columns,
            m.data@ == self.data@,
    {
        BidimensionalMatrix { rows: self.rows, columns: self.columns, data: clone_cells(&self.data) }
    }
}

/// Duplicates a vector of cell values; the copy holds exactly the same sequence.
pub fn clone_cells(data: &Vec<bool>) -> (copy: Vec<bool>)
    ensures
        copy@ == data@,
{
    let copy: Vec<bool> = data.clone();
    proof {
        assert forall|k: int| 0 <= k < copy@.len() implies copy@[k] == data@[k] by {
            assert(cloned::<bool>(data@[k], copy@[k]));
        }
        assert(copy@ =~= data@);
    }
    copy
}

} // verus!
