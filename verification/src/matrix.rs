//! Dense matrices of binary64 patterns.
//!
//! A matrix owns `rows * cols` patterns, stored column by column: the entry in
//! row `i` and column `j` is at position `j * rows + i`.

use vstd::prelude::*;

verus! {

/// What a matrix is made of: its shape and its entries, column by column.
pub struct MatrixView {
    pub rows: nat,
    pub cols: nat,
    pub entries: Seq<u64>,
}

impl MatrixView {
    /// There is exactly one entry for each position.
    pub open spec fn wf(self) -> bool {
        self.entries.len() == self.rows * self.cols
    }

    /// The matrix of the given shape whose entries all encode `+0`.
    pub open spec fn zeros(rows: nat, cols: nat) -> MatrixView {
        MatrixView { rows, cols, entries: Seq::new(rows * cols, |i: int| 0u64) }
    }
}

/// A dense matrix of binary64 patterns with a fixed shape.
pub struct Matrix {
    rows: usize,
    cols: usize,
    entries: Vec<u64>,
}

impl View for Matrix {
    type V = MatrixView;

    closed spec fn view(&self) -> MatrixView {
        MatrixView { rows: self.rows as nat, cols: self.cols as nat, entries: self.entries@ }
    }
}

impl Matrix {
    #[verifier::type_invariant]
    spec fn one_entry_per_position(&self) -> bool {
        self@.wf()
    }

    /// A matrix of `rows` by `cols` entries, each the pattern of `+0`.
    ///
    /// Either dimension may be 0, which gives a matrix without entries.
    pub fn zeros(rows: usize, cols: usize) -> (matrix: Matrix)
        requires
            rows * cols <= usize::MAX,
        ensures
            matrix@ == MatrixView::zeros(rows as nat, cols as nat),
            matrix@.wf(),
    {
        let len: usize = rows * cols;
        let entries: Vec<u64> = vec![0u64; len];
        assert(entries@ =~= Seq::new((rows as nat) * (cols as nat), |i: int| 0u64));
        Matrix { rows, cols, entries }
    }

    /// The number of rows.
    pub fn rows(&self) -> (rows: usize)
        ensures
            rows == self@.rows,
    {
        self.rows
    }

    /// The number of columns.
    pub fn cols(&self) -> (cols: usize)
        ensures
            cols == self@.cols,
    {
        self.cols
    }

    /// The entries, column by column: one for each position.
    pub fn entries(&self) -> (entries: &Vec<u64>)
        ensures
            entries@ == self@.entries,
            self@.wf(),
    {
        proof {
            use_type_invariant(self);
        }
        &self.entries
    }
}

impl Clone for Matrix {
    fn clone(&self) -> (copy: Self)
        ensures
            copy@ == self@,
    {
        proof {
            use_type_invariant(self);
        }
        let entries: Vec<u64> = self.entries.clone();
        assert(entries@ =~= self.entries@);
        Matrix { rows: self.rows, cols: self.cols, entries }
    }
}

} // verus!
