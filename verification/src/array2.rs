//! A row-major 2-D container with dimensions fixed at construction.
//!
//! Storage is a flat vector of length `rows * cols`; the element at
//! `(row, col)` sits at flat index `row * cols + col`.  Besides indexed
//! access the container offers both traversal orders as vectors of
//! `(row, col, element)` triples.

use vstd::prelude::*;

use vstd::arithmetic::div_mod::lemma_fundamental_div_mod_converse;

verus! {

/// A 2-D array stored flat in row-major order.
pub struct Array2<T> {
    matrix: Vec<T>,
    height: usize,
    width: usize,
}

impl<T> Array2<T> {
    /// The number of rows.
    pub closed spec fn spec_height(&self) -> usize {
        self.height
    }

    /// The number of columns.
    pub closed spec fn spec_width(&self) -> usize {
        self.width
    }

    /// The elements, flat, in row-major order.
    pub closed spec fn contents(&self) -> Seq<T> {
        self.matrix@
    }

    /// A well-formed array holds exactly one element per cell.
    pub open spec fn well_formed(&self) -> bool {
        self.contents().len() == self.spec_height() * self.spec_width()
    }

    /// Builds an array from a flat vector holding the elements in
    /// row-major order, together with the two dimensions.
    pub fn from(input: Vec<T>, row_amt: usize, col_amt: usize) -> (arr: Array2<T>)
        requires
            input@.len() == row_amt * col_amt,
        ensures
            arr.spec_height() == row_amt,
            arr.spec_width() == col_amt,
            arr.contents() == input@,
            arr.well_formed(),
    {
        Array2 { matrix: input, height: row_amt, width: col_amt }
    }

    /// Returns a reference to the element at `(row, col)`.
    pub fn get(&self, row: usize, col: usize) -> (e: &T)
        requires
            self.well_formed(),
            row < self.spec_height(),
            col < self.spec_width(),
        ensures
            *e == self.contents()[row * self.spec_width() + col],
    {
        // the length call tells the verifier that the element count, and so
        // every flat index below it, fits in usize
        let _total: usize = self.matrix.len();
        proof {
            assert(row * self.spec_width() + col < self.spec_height() * self.spec_width())
                by (nonlinear_arith)
                requires
                    row < self.spec_height(),
                    col < self.spec_width(),
            ;
        }
        &self.matrix[row * self.width + col]
    }
}

impl<T: Copy> Array2<T> {
    /// Returns the elements in row-major order: each cell's row, column
    /// and element, rows outermost.
    pub fn iter_row_maj(&self) -> (r: Vec<(usize, usize, T)>)
        requires
            self.well_formed(),
        ensures
            r@.len() == self.contents().len(),
            forall|k: int|
                0 <= k < r@.len() ==> #[trigger] r@[k] == (
                    ((k / (self.spec_width() as int)) as usize),
                    ((k % (self.spec_width() as int)) as usize),
                    self.contents()[k],
                ),
    {
        let total: usize = self.matrix.len();
        let mut r: Vec<(usize, usize, T)> = Vec::new();
        let mut k: usize = 0;
        while k < total
            invariant
                self.well_formed(),
                total == self.contents().len(),
                k <= total,
                r@.len() == k,
                forall|m: int|
                    0 <= m < r@.len() ==> #[trigger] r@[m] == (
                        ((m / (self.spec_width() as int)) as usize),
                        ((m % (self.spec_width() as int)) as usize),
                        self.contents()[m],
                    ),
            decreases total - k,
        {
            proof {
                assert(self.spec_width() >= 1 && k / self.spec_width() <= k) by (nonlinear_arith)
                    requires
                        0 <= k,
                        k < self.spec_height() * self.spec_width(),
                ;
            }
            r.push((k / self.width, k % self.width, self.matrix[k]));
            k += 1;
        }
        r
    }

    /// Returns the elements in column-major order: each cell's row, column
    /// and element, columns outermost.
    pub fn iter_col_maj(&self) -> (r: Vec<(usize, usize, T)>)
        requires
            self.well_formed(),
        ensures
            r@.len() == self.contents().len(),
            forall|k: int|
                0 <= k < r@.len() ==> #[trigger] r@[k] == (
                    ((k % (self.spec_height() as int)) as usize),
                    ((k / (self.spec_height() as int)) as usize),
                    self.contents()[(k % (self.spec_height() as int)) * self.spec_width() + k / (
                    self.spec_height() as int)],
                ),
    {
        let total: usize = self.matrix.len();
        let mut r: Vec<(usize, usize, T)> = Vec::new();
        let mut col: usize = 0;
        while col < self.width
            invariant
                self.well_formed(),
                total == self.contents().len(),
                col <= self.spec_width(),
                r@.len() == col * self.spec_height(),
                forall|k: int|
                    0 <= k < r@.len() ==> #[trigger] r@[k] == (
                        ((k % (self.spec_height() as int)) as usize),
                        ((k / (self.spec_height() as int)) as usize),
                        self.contents()[(k % (self.spec_height() as int)) * self.spec_width() + k
                            / (self.spec_height() as int)],
                    ),
            decreases self.spec_width() - col,
        {
            let mut row: usize = 0;
            while row < self.height
                invariant
                    self.well_formed(),
                    total == self.contents().len(),
                    col < self.spec_width(),
                    row <= self.spec_height(),
                    r@.len() == col * self.spec_height() + row,
                    forall|k: int|
                        0 <= k < r@.len() ==> #[trigger] r@[k] == (
                            ((k % (self.spec_height() as int)) as usize),
                            ((k / (self.spec_height() as int)) as usize),
                            self.contents()[(k % (self.spec_height() as int)) * self.spec_width()
                                + k / (self.spec_height() as int)],
                        ),
                decreases self.spec_height() - row,
            {
                proof {
                    assert(row * self.spec_width() + col < self.spec_height() * self.spec_width()
                        && col * self.spec_height() + row < self.spec_width()
                        * self.spec_height()) by (nonlinear_arith)
                        requires
                            0 <= row < self.spec_height(),
                            0 <= col < self.spec_width(),
                    ;
                }
                r.push((row, col, self.matrix[row * self.width + col]));
                proof {
                    lemma_fundamental_div_mod_converse(
                        (col * self.spec_height() + row) as int,
                        self.spec_height() as int,
                        col as int,
                        row as int,
                    );
                }
                row += 1;
            }
            proof {
                assert((col + 1) * self.spec_height() == col * self.spec_height()
                    + self.spec_height()) by (nonlinear_arith);
            }
            col += 1;
        }
        proof {
            assert(self.spec_width() * self.spec_height() == self.spec_height()
                * self.spec_width()) by (nonlinear_arith);
        }
        r
    }
}

} // verus!
