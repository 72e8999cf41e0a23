//! A widget that lays its subwidgets out in equal cells, row by row.

use vstd::prelude::*;

verus! {

#[derive(Debug, Clone, Copy, PartialEq, Eq, Structural)]
pub struct Grid {
    pub cols: usize,
    pub rows: usize,
}

impl Grid {
    /// Three rows of three cells.
    pub fn new() -> (r: Self)
        ensures
            r.rows == 3 && r.cols == 3,
    {
        Self::with(3, 3)
    }

    pub fn with(rows: usize, cols: usize) -> (r: Self)
        ensures
            r.rows == rows && r.cols == cols,
    {
        Grid { cols, rows }
    }

    pub fn with_columns(self, cols: usize) -> (r: Self)
        ensures
            r.rows == self.rows && r.cols == cols,
    {
        let mut s = self;
        s.cols = cols;
        s
    }

    pub fn with_rows(self, rows: usize) -> (r: Self)
        ensures
            r.rows == rows && r.cols == self.cols,
    {
        let mut s = self;
        s.rows = rows;
        s
    }

    /// The column and row of the `n`th subwidget.
    pub fn cell(&self, n: usize) -> (r: (usize, usize))
        requires
            self.cols > 0,
        ensures
            r.0 == n % self.cols,
            r.1 == n / self.cols,
    {
        (n % self.cols, n / self.cols)
    }
}

impl Default for Grid {
    fn default() -> (r: Self)
        ensures
            r.rows == 3 && r.cols == 3,
    {
        Self::new()
    }
}

/// Cells are filled row by row: the `n`th subwidget sits in column
/// `n % cols` of row `n / cols`, so that `row * cols + col == n`, and no two
/// subwidgets share a cell.
pub proof fn lemma_cells_row_major(cols: usize, n: usize, m: usize)
    requires
        cols > 0,
    ensures
        (n / cols) * cols + n % cols == n,
        n % cols < cols,
        n != m ==> (n % cols, n / cols) != (m % cols, m / cols),
{
    vstd::arithmetic::div_mod::lemma_fundamental_div_mod(n as int, cols as int);
    vstd::arithmetic::div_mod::lemma_fundamental_div_mod(m as int, cols as int);
    vstd::arithmetic::mul::lemma_mul_is_commutative((n / cols) as int, cols as int);
    vstd::arithmetic::mul::lemma_mul_is_commutative((m / cols) as int, cols as int);
}

} // verus!
