//! Matrices of scalars: construction, cell access, transposition, the
//! removal of a row and a column, products, determinants and inverses.
//!
//! Cells are stored row by row. The determinant is expanded along the
//! first row, and the inverse is made of cofactors divided by the
//! determinant.

use vstd::prelude::*;
use crate::arithmetic::{
    close, difference, nearly_equal, product, quotient, steady, sum, Arithmetic,
};
use crate::error::Error;
use crate::grid::lemma_index_in_grid;
use crate::scalar::Scalar;
use crate::tuple::Tuple;

verus! {

/// A matrix of `nrows` rows and `ncols` columns.
#[derive(Debug)]
pub struct Matrix {
    nrows: usize,
    ncols: usize,
    cells: Vec<Scalar>,
}

/// What a matrix holds: its size and its cells, row by row.
pub struct MatrixView {
    pub nrows: nat,
    pub ncols: nat,
    pub cells: Seq<Scalar>,
}

impl MatrixView {
    /// There is one cell for each position.
    pub open spec fn wf(self) -> bool {
        self.cells.len() == self.nrows * self.ncols
    }

    /// The cell of row `r` and column `c`.
    pub open spec fn at(self, r: int, c: int) -> Scalar {
        self.cells[r * self.ncols + c]
    }

    /// The matrix of the given size whose cell `(r, c)` is `f(r, c)`.
    pub open spec fn from_fn(nrows: nat, ncols: nat, f: spec_fn(int, int) -> Scalar) -> MatrixView {
        MatrixView {
            nrows,
            ncols,
            cells: Seq::new(nrows * ncols, |i: int| f(i / ncols as int, i % ncols as int)),
        }
    }

    /// The matrix of zeros.
    pub open spec fn zeros(nrows: nat, ncols: nat) -> MatrixView {
        MatrixView::from_fn(nrows, ncols, |r: int, c: int| Scalar::spec_zero())
    }

    /// The square matrix with ones on the diagonal and zeros elsewhere.
    pub open spec fn identity(size: nat) -> MatrixView {
        MatrixView::from_fn(
            size,
            size,
            |r: int, c: int|
                if r == c {
                    Scalar::spec_one()
                } else {
                    Scalar::spec_zero()
                },
        )
    }

    /// Rows and columns exchanged.
    pub open spec fn transposed(self) -> MatrixView {
        MatrixView::from_fn(self.ncols, self.nrows, |r: int, c: int| self.at(c, r))
    }

    /// The index in the whole matrix of index `i` of what is left when
    /// `removed` is taken out.
    pub open spec fn skipping(i: int, removed: int) -> int {
        if i < removed {
            i
        } else {
            i + 1
        }
    }

    /// The matrix without row `row` and column `col`.
    pub open spec fn without(self, row: int, col: int) -> MatrixView {
        MatrixView::from_fn(
            (self.nrows - 1) as nat,
            (self.ncols - 1) as nat,
            |r: int, c: int|
                self.at(MatrixView::skipping(r, row), MatrixView::skipping(c, col)),
        )
    }

    /// The matrix with cell `(r, c)` replaced by `v`.
    pub open spec fn with_cell(self, r: int, c: int, v: Scalar) -> MatrixView {
        MatrixView {
            nrows: self.nrows,
            ncols: self.ncols,
            cells: self.cells.update(r * self.ncols + c, v),
        }
    }
}

/// A matrix made by `from_fn` is well formed and holds `f(r, c)` in each of
/// its cells.
pub proof fn lemma_from_fn(nrows: nat, ncols: nat, f: spec_fn(int, int) -> Scalar, r: int, c: int)
    requires
        0 <= r < nrows,
        0 <= c < ncols,
    ensures
        MatrixView::from_fn(nrows, ncols, f).wf(),
        MatrixView::from_fn(nrows, ncols, f).at(r, c) == f(r, c),
{
    lemma_index_in_grid(ncols, nrows, c as nat, r as nat);
    assert(nrows * ncols == ncols * nrows) by (nonlinear_arith);
}

impl View for Matrix {
    type V = MatrixView;

    closed spec fn view(&self) -> MatrixView {
        MatrixView { nrows: self.nrows as nat, ncols: self.ncols as nat, cells: self.cells@ }
    }
}

impl Matrix {
    /// There is one cell for each position.
    #[verifier::type_invariant]
    closed spec fn inv(self) -> bool {
        self.cells@.len() == self.nrows * self.ncols
    }

    /// Creates a matrix of zeros.
    pub fn new(nrows: usize, ncols: usize) -> (m: Matrix)
        requires
            nrows * ncols <= usize::MAX,
        ensures
            m@.wf(),
            m@ == MatrixView::zeros(nrows as nat, ncols as nat),
    {
        let count: usize = nrows * ncols;
        let mut cells: Vec<Scalar> = Vec::new();
        let mut i: usize = 0;
        while i < count
            invariant
                i <= count,
                cells@.len() == i,
                forall|k: int| 0 <= k < i ==> cells@[k] == Scalar::spec_zero(),
            decreases count - i,
        {
            cells.push(Scalar::zero());
            i += 1;
        }
        assert(cells@ =~= MatrixView::zeros(nrows as nat, ncols as nat).cells);
        Matrix { nrows, ncols, cells }
    }

    pub fn nrows(&self) -> (r: usize)
        ensures
            r == self@.nrows,
            self@.wf(),
    {
        proof {
            use_type_invariant(self);
        }
        self.nrows
    }

    pub fn ncols(&self) -> (r: usize)
        ensures
            r == self@.ncols,
            self@.wf(),
    {
        proof {
            use_type_invariant(self);
        }
        self.ncols
    }

    /// The cell of row `r` and column `c`, which the matrix has.
    pub fn cell(&self, r: usize, c: usize) -> (v: Scalar)
        requires
            r < self@.nrows,
            c < self@.ncols,
        ensures
            v == self@.at(r as int, c as int),
    {
        proof {
            use_type_invariant(self);
            lemma_index_in_grid(self.ncols as nat, self.nrows as nat, c as nat, r as nat);
            assert(self.nrows * self.ncols == self.ncols * self.nrows) by (nonlinear_arith);
            assert(r * self.ncols + c < self.cells.len() <= usize::MAX);
        }
        self.cells[r * self.ncols + c]
    }

    /// The cell of row `r` and column `c`, if the matrix has it.
    pub fn get(&self, r: usize, c: usize) -> (v: Result<Scalar, Error>)
        ensures
            v == if r < self@.nrows && c < self@.ncols {
                Ok::<Scalar, Error>(self@.at(r as int, c as int))
            } else {
                Err(Error::IndexOutOfRange)
            },
    {
        if r < self.nrows && c < self.ncols {
            Ok(self.cell(r, c))
        } else {
            Err(Error::IndexOutOfRange)
        }
    }

    /// Replaces the cell of row `r` and column `c` by `v`, if the matrix has
    /// that cell; every other cell stays. Where it has no such cell, the
    /// matrix stays as it is.
    pub fn set(&mut self, r: usize, c: usize, v: Scalar) -> (done: Result<(), Error>)
        ensures
            final(self)@.wf(),
            r < old(self)@.nrows && c < old(self)@.ncols ==> done.is_ok() && final(self)@ == old(
                self,
            )@.with_cell(r as int, c as int, v),
            !(r < old(self)@.nrows && c < old(self)@.ncols) ==> done == Err::<(), Error>(
                Error::IndexOutOfRange,
            ) && final(self)@ == old(self)@,
    {
        proof {
            use_type_invariant(&*self);
        }
        if r < self.nrows && c < self.ncols {
            proof {
                lemma_index_in_grid(self.ncols as nat, self.nrows as nat, c as nat, r as nat);
                assert(self.nrows * self.ncols == self.ncols * self.nrows) by (nonlinear_arith);
                assert(r * self.ncols + c < self.cells.len() <= usize::MAX);
            }
            let index: usize = r * self.ncols + c;
            let mut taken = Matrix { nrows: 0, ncols: 0, cells: Vec::new() };
            core::mem::swap(self, &mut taken);
            let Matrix { nrows, ncols, mut cells } = taken;
            cells.set(index, v);
            *self = Matrix { nrows, ncols, cells };
            Ok(())
        } else {
            Err(Error::IndexOutOfRange)
        }
    }
}

impl Matrix {
    /// Creates the 4x4 matrix that holds `values`, row by row.
    pub fn new_4x4(values: &[[Scalar; 4]; 4]) -> (m: Matrix)
        ensures
            m@.wf(),
            m@ == MatrixView::from_fn(4, 4, |r: int, c: int| values[r][c]),
    {
        let mut cells: Vec<Scalar> = Vec::new();
        let mut r: usize = 0;
        while r < 4
            invariant
                r <= 4,
                cells@.len() == r * 4,
                forall|k: int| 0 <= k < cells@.len() ==> cells@[k] == values[k / 4][k % 4],
            decreases 4 - r,
        {
            let mut c: usize = 0;
            while c < 4
                invariant
                    r < 4,
                    c <= 4,
                    cells@.len() == r * 4 + c,
                    forall|k: int| 0 <= k < cells@.len() ==> cells@[k] == values[k / 4][k % 4],
                decreases 4 - c,
            {
                cells.push(values[r][c]);
                c += 1;
            }
            r += 1;
        }
        assert(cells@ =~= MatrixView::from_fn(4, 4, |r: int, c: int| values[r][c]).cells);
        Matrix { nrows: 4, ncols: 4, cells }
    }

    /// Creates the 3x3 matrix that holds `values`, row by row.
    pub fn new_3x3(values: &[[Scalar; 3]; 3]) -> (m: Matrix)
        ensures
            m@.wf(),
            m@ == MatrixView::from_fn(3, 3, |r: int, c: int| values[r][c]),
    {
        let mut cells: Vec<Scalar> = Vec::new();
        let mut r: usize = 0;
        while r < 3
            invariant
                r <= 3,
                cells@.len() == r * 3,
                forall|k: int| 0 <= k < cells@.len() ==> cells@[k] == values[k / 3][k % 3],
            decreases 3 - r,
        {
            let mut c: usize = 0;
            while c < 3
                invariant
                    r < 3,
                    c <= 3,
                    cells@.len() == r * 3 + c,
                    forall|k: int| 0 <= k < cells@.len() ==> cells@[k] == values[k / 3][k % 3],
                decreases 3 - c,
            {
                cells.push(values[r][c]);
                c += 1;
            }
            r += 1;
        }
        assert(cells@ =~= MatrixView::from_fn(3, 3, |r: int, c: int| values[r][c]).cells);
        Matrix { nrows: 3, ncols: 3, cells }
    }

    /// Creates the 2x2 matrix that holds `values`, row by row.
    pub fn new_2x2(values: &[[Scalar; 2]; 2]) -> (m: Matrix)
        ensures
            m@.wf(),
            m@ == MatrixView::from_fn(2, 2, |r: int, c: int| values[r][c]),
    {
        let mut cells: Vec<Scalar> = Vec::new();
        let mut r: usize = 0;
        while r < 2
            invariant
                r <= 2,
                cells@.len() == r * 2,
                forall|k: int| 0 <= k < cells@.len() ==> cells@[k] == values[k / 2][k % 2],
            decreases 2 - r,
        {
            let mut c: usize = 0;
            while c < 2
                invariant
                    r < 2,
                    c <= 2,
                    cells@.len() == r * 2 + c,
                    forall|k: int| 0 <= k < cells@.len() ==> cells@[k] == values[k / 2][k % 2],
                decreases 2 - c,
            {
                cells.push(values[r][c]);
                c += 1;
            }
            r += 1;
        }
        assert(cells@ =~= MatrixView::from_fn(2, 2, |r: int, c: int| values[r][c]).cells);
        Matrix { nrows: 2, ncols: 2, cells }
    }

    /// Creates the 4x4 identity matrix.
    pub fn new_4x4_identity() -> (m: Matrix)
        ensures
            m@.wf(),
            m@ == MatrixView::identity(4),
    {
        let o = Scalar::zero();
        let i = Scalar::one();
        let m = Matrix::new_4x4(&[[i, o, o, o], [o, i, o, o], [o, o, i, o], [o, o, o, i]]);
        assert(m@.cells =~= MatrixView::identity(4).cells);
        m
    }

    /// The matrix with rows and columns exchanged.
    pub fn transposed(&self) -> (m: Matrix)
        ensures
            m@.wf(),
            m@ == self@.transposed(),
    {
        proof {
            use_type_invariant(self);
        }
        let mut cells: Vec<Scalar> = Vec::new();
        let ghost goal = self@.transposed();
        let mut r: usize = 0;
        while r < self.ncols
            invariant
                self@.wf(),
                goal == self@.transposed(),
                r <= self.ncols,
                cells@.len() == r * self.nrows,
                forall|k: int| 0 <= k < cells@.len() ==> cells@[k] == goal.cells[k],
            decreases self.ncols - r,
        {
            let mut c: usize = 0;
            while c < self.nrows
                invariant
                    self@.wf(),
                    goal == self@.transposed(),
                    r < self.ncols,
                    c <= self.nrows,
                    cells@.len() == r * self.nrows + c,
                    forall|k: int| 0 <= k < cells@.len() ==> cells@[k] == goal.cells[k],
                decreases self.nrows - c,
            {
                proof {
                    lemma_index_in_grid(self.nrows as nat, self.ncols as nat, c as nat, r as nat);
                    assert(self.nrows * self.ncols == self.ncols * self.nrows) by (nonlinear_arith);
                    let k = r * self.nrows + c;
                    assert(k < goal.cells.len());
                    assert(k / self.nrows as int == r && k % self.nrows as int == c);
                    assert(goal.cells[k] == self@.at(c as int, r as int));
                }
                cells.push(self.cell(c, r));
                c += 1;
            }
            proof {
                assert(r * self.nrows + self.nrows == (r + 1) * self.nrows) by (nonlinear_arith);
            }
            r += 1;
        }
        assert(cells@ =~= goal.cells);
        Matrix { nrows: self.ncols, ncols: self.nrows, cells }
    }

    /// The matrix without row `row` and column `col`.
    pub fn submatrix(&self, row: usize, col: usize) -> (m: Matrix)
        requires
            row < self@.nrows,
            col < self@.ncols,
        ensures
            m@.wf(),
            m@ == self@.without(row as int, col as int),
    {
        proof {
            use_type_invariant(self);
        }
        let nrows: usize = self.nrows - 1;
        let ncols: usize = self.ncols - 1;
        let mut cells: Vec<Scalar> = Vec::new();
        let ghost goal = self@.without(row as int, col as int);
        proof {
            assert(nrows * ncols <= self.nrows * self.ncols) by (nonlinear_arith)
                requires
                    nrows == self.nrows - 1,
                    ncols == self.ncols - 1,
                    self.nrows >= 1,
                    self.ncols >= 1,
            ;
        }
        let mut r: usize = 0;
        while r < nrows
            invariant
                self@.wf(),
                goal == self@.without(row as int, col as int),
                nrows == self.nrows - 1,
                ncols == self.ncols - 1,
                row < self.nrows,
                col < self.ncols,
                r <= nrows,
                cells@.len() == r * ncols,
                forall|k: int| 0 <= k < cells@.len() ==> cells@[k] == goal.cells[k],
            decreases nrows - r,
        {
            let src_row: usize = if r < row {
                r
            } else {
                r + 1
            };
            let mut c: usize = 0;
            while c < ncols
                invariant
                    self@.wf(),
                    goal == self@.without(row as int, col as int),
                    nrows == self.nrows - 1,
                    ncols == self.ncols - 1,
                    row < self.nrows,
                    col < self.ncols,
                    r < nrows,
                    c <= ncols,
                    src_row == MatrixView::skipping(r as int, row as int),
                    cells@.len() == r * ncols + c,
                    forall|k: int| 0 <= k < cells@.len() ==> cells@[k] == goal.cells[k],
                decreases ncols - c,
            {
                let src_col: usize = if c < col {
                    c
                } else {
                    c + 1
                };
                proof {
                    lemma_index_in_grid(ncols as nat, nrows as nat, c as nat, r as nat);
                    assert(nrows * ncols == ncols * nrows) by (nonlinear_arith);
                    let k = r * ncols + c;
                    assert(goal.cells.len() == nrows * ncols);
                    assert(k < goal.cells.len());
                    assert(k / ncols as int == r && k % ncols as int == c);
                    assert(goal.cells[k] == self@.at(src_row as int, src_col as int));
                }
                cells.push(self.cell(src_row, src_col));
                c += 1;
            }
            proof {
                assert(r * ncols + ncols == (r + 1) * ncols) by (nonlinear_arith);
            }
            r += 1;
        }
        assert(cells@ =~= goal.cells);
        Matrix { nrows, ncols, cells }
    }
}

/// The cofactor that belongs to a minor: the minor itself, with its sign
/// changed where `row + col` is odd.
pub open spec fn cofactor_of(row: int, col: int, minor: Scalar) -> Scalar {
    if (row + col) % 2 == 1 {
        minor.negated()
    } else {
        minor
    }
}

/// The cofactor that belongs to a minor.
pub fn signed_minor(row: usize, col: usize, minor: Scalar) -> (r: Scalar)
    ensures
        r == cofactor_of(row as int, col as int, minor),
{
    if row % 2 != col % 2 {
        minor.neg()
    } else {
        minor
    }
}

impl Clone for Matrix {
    fn clone(&self) -> (m: Matrix)
        ensures
            m@ == self@,
    {
        proof {
            use_type_invariant(self);
        }
        let mut cells: Vec<Scalar> = Vec::new();
        let mut i: usize = 0;
        while i < self.cells.len()
            invariant
                i <= self.cells.len(),
                cells@ == self.cells@.take(i as int),
            decreases self.cells.len() - i,
        {
            cells.push(self.cells[i]);
            i += 1;
            assert(cells@ =~= self.cells@.take(i as int));
        }
        assert(cells@ =~= self.cells@);
        Matrix { nrows: self.nrows, ncols: self.ncols, cells }
    }
}

impl MatrixView {
    /// The sum, from 0, of the products of the first `n` cells of row `r`
    /// and the first `n` cells of column `c` of `other`.
    pub open spec fn row_by_column<A: Arithmetic>(
        self,
        other: MatrixView,
        r: int,
        c: int,
        n: nat,
        ops: &A,
    ) -> Scalar
        decreases n,
    {
        if n == 0 {
            Scalar::spec_zero()
        } else {
            sum(
                ops,
                self.row_by_column(other, r, c, (n - 1) as nat, ops),
                product(ops, self.at(r, n - 1), other.at(n - 1, c)),
            )
        }
    }

    /// The product of this matrix and `other`: cell `(r, c)` is row `r` by
    /// column `c`.
    pub open spec fn multiplied<A: Arithmetic>(self, other: MatrixView, ops: &A) -> MatrixView {
        MatrixView::from_fn(
            self.nrows,
            other.ncols,
            |r: int, c: int| self.row_by_column(other, r, c, self.ncols, ops),
        )
    }

    /// The sum, from 0, of the products of the first `n` cells of row `r`
    /// and the first `n` components of `t`.
    pub open spec fn row_by_tuple<A: Arithmetic>(self, t: Tuple, r: int, n: nat, ops: &A) -> Scalar
        decreases n,
    {
        if n == 0 {
            Scalar::spec_zero()
        } else {
            sum(
                ops,
                self.row_by_tuple(t, r, (n - 1) as nat, ops),
                product(ops, self.at(r, n - 1), t.component(n - 1)),
            )
        }
    }

    /// Component `r` of the product of this matrix of four columns and `t`:
    /// row `r` by the tuple, and 0 where the matrix has no row `r`.
    pub open spec fn applied_at<A: Arithmetic>(self, t: Tuple, r: int, ops: &A) -> Scalar {
        if r < self.nrows {
            self.row_by_tuple(t, r, 4, ops)
        } else {
            Scalar::spec_zero()
        }
    }

    /// The product of this matrix and the tuple `t`.
    pub open spec fn applied<A: Arithmetic>(self, t: Tuple, ops: &A) -> Tuple {
        Tuple {
            x: self.applied_at(t, 0, ops),
            y: self.applied_at(t, 1, ops),
            z: self.applied_at(t, 2, ops),
            w: self.applied_at(t, 3, ops),
        }
    }

    /// The determinant of a square matrix of two rows or more: for two
    /// rows `ad - bc`, for more the expansion along the first row.
    pub open spec fn determinant<A: Arithmetic>(self, ops: &A) -> Scalar
        decreases self.nrows, self.ncols + 1,
    {
        if self.nrows <= 2 {
            difference(
                ops,
                product(ops, self.at(0, 0), self.at(1, 1)),
                product(ops, self.at(0, 1), self.at(1, 0)),
            )
        } else {
            self.expansion(self.ncols, ops)
        }
    }

    /// The sum, from 0, of the first `n` terms of the expansion along the
    /// first row: each term a cell of that row times its cofactor.
    pub open spec fn expansion<A: Arithmetic>(self, n: nat, ops: &A) -> Scalar
        decreases self.nrows, n,
    {
        if n == 0 || self.nrows <= 2 || n > self.ncols {
            Scalar::spec_zero()
        } else {
            sum(
                ops,
                self.expansion((n - 1) as nat, ops),
                product(
                    ops,
                    self.at(0, n - 1),
                    cofactor_of(0, n - 1, self.without(0, n - 1).determinant(ops)),
                ),
            )
        }
    }

    /// The minor of cell `(row, col)`: the determinant of the matrix
    /// without that row and that column.
    pub open spec fn minor<A: Arithmetic>(self, row: int, col: int, ops: &A) -> Scalar {
        self.without(row, col).determinant(ops)
    }

    /// The cofactor of cell `(row, col)`: its minor, negated where
    /// `row + col` is odd.
    pub open spec fn cofactor<A: Arithmetic>(self, row: int, col: int, ops: &A) -> Scalar {
        cofactor_of(row, col, self.minor(row, col, ops))
    }

    /// The matrix has an inverse: its determinant is not the number 0.
    pub open spec fn invertible<A: Arithmetic>(self, ops: &A) -> bool {
        !self.determinant(ops).same(Scalar::spec_zero())
    }

    /// The inverse: cell `(r, c)` is the cofactor of cell `(c, r)` divided by
    /// the determinant. There is none where the determinant is 0.
    pub open spec fn inverse<A: Arithmetic>(self, ops: &A) -> Result<MatrixView, Error> {
        if self.invertible(ops) {
            Ok(
                MatrixView::from_fn(
                    self.nrows,
                    self.ncols,
                    |r: int, c: int| quotient(ops, self.cofactor(c, r, ops), self.determinant(ops)),
                ),
            )
        } else {
            Err(Error::NotInvertible)
        }
    }

    /// The inverse of a transformation, which is a 4x4 matrix. No other
    /// matrix is one.
    pub open spec fn transform_inverse<A: Arithmetic>(self, ops: &A) -> Result<MatrixView, Error> {
        if self.nrows == 4 && self.ncols == 4 {
            self.inverse(ops)
        } else {
            Err(Error::InvalidDimension)
        }
    }

    /// The two matrices have the same size, and each cell is close to the
    /// cell of the other.
    pub open spec fn close_to<A: Arithmetic>(self, other: MatrixView, ops: &A) -> bool {
        &&& self.nrows == other.nrows
        &&& self.ncols == other.ncols
        &&& forall|i: int|
            0 <= i < self.cells.len() ==> close(ops, #[trigger] self.cells[i], other.cells[i])
    }
}

impl Matrix {
    /// The determinant of a square matrix of two rows or more.
    pub fn determinant<A: Arithmetic>(&self, ops: &A) -> (d: Scalar)
        requires
            steady(ops),
            self@.nrows == self@.ncols,
            self@.nrows >= 2,
        ensures
            d == self@.determinant(ops),
        decreases self@.nrows,
    {
        proof {
            use_type_invariant(self);
        }
        if self.nrows == 2 {
            ops.minus(
                ops.times(self.cell(0, 0), self.cell(1, 1)),
                ops.times(self.cell(0, 1), self.cell(1, 0)),
            )
        } else {
            let mut det = Scalar::zero();
            let mut i: usize = 0;
            while i < self.ncols
                invariant
                    steady(ops),
                    self@.wf(),
                    self@.nrows == self@.ncols,
                    self@.nrows > 2,
                    i <= self.ncols,
                    det == self@.expansion(i as nat, ops),
                decreases self.ncols - i,
            {
                let minor = self.submatrix(0, i).determinant(ops);
                det = ops.plus(det, ops.times(self.cell(0, i), signed_minor(0, i, minor)));
                i += 1;
            }
            det
        }
    }

    /// The minor of cell `(row, col)` of a square matrix of three rows or
    /// more.
    pub fn minor<A: Arithmetic>(&self, row: usize, col: usize, ops: &A) -> (d: Scalar)
        requires
            steady(ops),
            self@.nrows == self@.ncols,
            self@.nrows >= 3,
            row < self@.nrows,
            col < self@.ncols,
        ensures
            d == self@.minor(row as int, col as int, ops),
    {
        self.submatrix(row, col).determinant(ops)
    }

    /// The cofactor of cell `(row, col)` of a square matrix of three rows
    /// or more.
    pub fn cofactor<A: Arithmetic>(&self, row: usize, col: usize, ops: &A) -> (d: Scalar)
        requires
            steady(ops),
            self@.nrows == self@.ncols,
            self@.nrows >= 3,
            row < self@.nrows,
            col < self@.ncols,
        ensures
            d == self@.cofactor(row as int, col as int, ops),
    {
        signed_minor(row, col, self.minor(row, col, ops))
    }

    /// Whether the matrix has an inverse: whether its determinant is not 0.
    pub fn invertible<A: Arithmetic>(&self, ops: &A) -> (r: bool)
        requires
            steady(ops),
            self@.nrows == self@.ncols,
            self@.nrows >= 2,
        ensures
            r == self@.invertible(ops),
            r == !self@.determinant(ops).same(Scalar::spec_zero()),
    {
        !self.determinant(ops).equals(Scalar::zero())
    }

    /// The inverse of a square matrix of three rows or more. A matrix whose
    /// determinant is 0 has none.
    pub fn inverted<A: Arithmetic>(&self, ops: &A) -> (r: Result<Matrix, Error>)
        requires
            steady(ops),
            self@.nrows == self@.ncols,
            self@.nrows >= 3,
        ensures
            match r {
                Ok(m) => m@.wf() && Ok::<MatrixView, Error>(m@) == self@.inverse(ops),
                Err(e) => Err::<MatrixView, Error>(e) == self@.inverse(ops),
            },
    {
        proof {
            use_type_invariant(self);
        }
        let det = self.determinant(ops);
        if det.equals(Scalar::zero()) {
            return Err(Error::NotInvertible);
        }
        let ghost goal = self@.inverse(ops).unwrap();
        let mut cells: Vec<Scalar> = Vec::new();
        let mut r: usize = 0;
        while r < self.nrows
            invariant
                steady(ops),
                self@.wf(),
                self@.nrows == self@.ncols,
                self@.nrows >= 3,
                det == self@.determinant(ops),
                self@.invertible(ops),
                goal == self@.inverse(ops).unwrap(),
                r <= self.nrows,
                cells@.len() == r * self.ncols,
                forall|k: int| 0 <= k < cells@.len() ==> cells@[k] == goal.cells[k],
            decreases self.nrows - r,
        {
            let mut c: usize = 0;
            while c < self.ncols
                invariant
                    steady(ops),
                    self@.wf(),
                    self@.nrows == self@.ncols,
                    self@.nrows >= 3,
                    det == self@.determinant(ops),
                    self@.invertible(ops),
                    goal == self@.inverse(ops).unwrap(),
                    r < self.nrows,
                    c <= self.ncols,
                    cells@.len() == r * self.ncols + c,
                    forall|k: int| 0 <= k < cells@.len() ==> cells@[k] == goal.cells[k],
                decreases self.ncols - c,
            {
                proof {
                    lemma_index_in_grid(self.ncols as nat, self.nrows as nat, c as nat, r as nat);
                    assert(self.nrows * self.ncols == self.ncols * self.nrows) by (nonlinear_arith);
                    let k = r * self.ncols + c;
                    assert(k < goal.cells.len());
                    assert(k / self.ncols as int == r && k % self.ncols as int == c);
                    assert(goal.cells[k] == quotient(
                        ops,
                        self@.cofactor(c as int, r as int, ops),
                        self@.determinant(ops),
                    ));
                }
                cells.push(ops.over(self.cofactor(c, r, ops), det));
                c += 1;
            }
            proof {
                assert(r * self.ncols + self.ncols == (r + 1) * self.ncols) by (nonlinear_arith);
            }
            r += 1;
        }
        assert(cells@ =~= goal.cells);
        Ok(Matrix { nrows: self.nrows, ncols: self.ncols, cells })
    }

    /// The inverse of this matrix as a transformation: of a 4x4 matrix
    /// whose determinant is not 0.
    pub fn transform_inverted<A: Arithmetic>(&self, ops: &A) -> (r: Result<Matrix, Error>)
        requires
            steady(ops),
        ensures
            match r {
                Ok(m) => m@.wf() && m@.nrows == 4 && m@.ncols == 4 && self@.transform_inverse(ops)
                    == Ok::<MatrixView, Error>(m@),
                Err(e) => self@.transform_inverse(ops) == Err::<MatrixView, Error>(e),
            },
    {
        if self.nrows == 4 && self.ncols == 4 {
            self.inverted(ops)
        } else {
            Err(Error::InvalidDimension)
        }
    }

    /// Row `r` of this matrix by column `c` of `other`.
    fn row_by_column<A: Arithmetic>(&self, other: &Matrix, r: usize, c: usize, ops: &A) -> (d:
        Scalar)
        requires
            steady(ops),
            self@.ncols == other@.nrows,
            r < self@.nrows,
            c < other@.ncols,
        ensures
            d == self@.row_by_column(other@, r as int, c as int, self@.ncols, ops),
    {
        let mut dot = Scalar::zero();
        let mut i: usize = 0;
        while i < self.ncols
            invariant
                steady(ops),
                self@.ncols == other@.nrows,
                r < self@.nrows,
                c < other@.ncols,
                i <= self.ncols,
                self.ncols == self@.ncols,
                dot == self@.row_by_column(other@, r as int, c as int, i as nat, ops),
            decreases self.ncols - i,
        {
            dot = ops.plus(dot, ops.times(self.cell(r, i), other.cell(i, c)));
            i += 1;
        }
        dot
    }

    /// The product of this matrix and `other`. There is none unless this
    /// matrix has as many columns as `other` has rows.
    pub fn mul<A: Arithmetic>(&self, other: &Matrix, ops: &A) -> (r: Result<Matrix, Error>)
        requires
            steady(ops),
            self@.nrows * other@.ncols <= usize::MAX,
        ensures
            match r {
                Ok(m) => self@.ncols == other@.nrows && m@.wf() && m@ == self@.multiplied(
                    other@,
                    ops,
                ),
                Err(e) => self@.ncols != other@.nrows && e == Error::InvalidDimension,
            },
    {
        if self.ncols != other.nrows {
            return Err(Error::InvalidDimension);
        }
        let nrows: usize = self.nrows;
        let ncols: usize = other.ncols;
        let ghost goal = self@.multiplied(other@, ops);
        let mut cells: Vec<Scalar> = Vec::new();
        let mut r: usize = 0;
        while r < nrows
            invariant
                steady(ops),
                self@.ncols == other@.nrows,
                nrows == self@.nrows,
                ncols == other@.ncols,
                nrows * ncols <= usize::MAX,
                goal == self@.multiplied(other@, ops),
                r <= nrows,
                cells@.len() == r * ncols,
                forall|k: int| 0 <= k < cells@.len() ==> cells@[k] == goal.cells[k],
            decreases nrows - r,
        {
            let mut c: usize = 0;
            while c < ncols
                invariant
                    steady(ops),
                    self@.ncols == other@.nrows,
                    nrows == self@.nrows,
                    ncols == other@.ncols,
                    nrows * ncols <= usize::MAX,
                    goal == self@.multiplied(other@, ops),
                    r < nrows,
                    c <= ncols,
                    cells@.len() == r * ncols + c,
                    forall|k: int| 0 <= k < cells@.len() ==> cells@[k] == goal.cells[k],
                decreases ncols - c,
            {
                proof {
                    lemma_index_in_grid(ncols as nat, nrows as nat, c as nat, r as nat);
                    assert(nrows * ncols == ncols * nrows) by (nonlinear_arith);
                    let k = r * ncols + c;
                    assert(k < goal.cells.len());
                    assert(k / ncols as int == r && k % ncols as int == c);
                    assert(goal.cells[k] == self@.row_by_column(
                        other@,
                        r as int,
                        c as int,
                        self@.ncols,
                        ops,
                    ));
                }
                cells.push(self.row_by_column(other, r, c, ops));
                c += 1;
            }
            proof {
                assert(r * ncols + ncols == (r + 1) * ncols) by (nonlinear_arith);
            }
            r += 1;
        }
        assert(cells@ =~= goal.cells);
        Ok(Matrix { nrows, ncols, cells })
    }

    /// Row `r` of this matrix of four columns by the tuple `t`.
    fn row_by_tuple<A: Arithmetic>(&self, t: &Tuple, r: usize, ops: &A) -> (d: Scalar)
        requires
            steady(ops),
            self@.ncols == 4,
            r < self@.nrows,
        ensures
            d == self@.row_by_tuple(*t, r as int, 4, ops),
    {
        let mut dot = Scalar::zero();
        let mut c: usize = 0;
        while c < 4
            invariant
                steady(ops),
                self@.ncols == 4,
                r < self@.nrows,
                c <= 4,
                dot == self@.row_by_tuple(*t, r as int, c as nat, ops),
            decreases 4 - c,
        {
            dot = ops.plus(dot, ops.times(self.cell(r, c), t.get(c)));
            c += 1;
        }
        dot
    }

    /// Component `r` of the product of this matrix and the tuple `t`.
    fn applied_at<A: Arithmetic>(&self, t: &Tuple, r: usize, ops: &A) -> (d: Scalar)
        requires
            steady(ops),
            self@.ncols == 4,
        ensures
            d == self@.applied_at(*t, r as int, ops),
    {
        if r < self.nrows {
            self.row_by_tuple(t, r, ops)
        } else {
            Scalar::zero()
        }
    }

    /// The product of this matrix and the tuple `t`. There is none unless
    /// the matrix has four columns and at most four rows; where it has
    /// fewer rows, the components without a row are 0.
    pub fn mul_tuple<A: Arithmetic>(&self, t: &Tuple, ops: &A) -> (r: Result<Tuple, Error>)
        requires
            steady(ops),
        ensures
            r == if self@.ncols == 4 && self@.nrows <= 4 {
                Ok::<Tuple, Error>(self@.applied(*t, ops))
            } else {
                Err(Error::InvalidDimension)
            },
    {
        if self.ncols != 4 || self.nrows > 4 {
            return Err(Error::InvalidDimension);
        }
        Ok(
            Tuple {
                x: self.applied_at(t, 0, ops),
                y: self.applied_at(t, 1, ops),
                z: self.applied_at(t, 2, ops),
                w: self.applied_at(t, 3, ops),
            },
        )
    }

    /// Whether two matrices are equal up to rounding: of the same size,
    /// with each cell close to the cell of the other.
    pub fn nearly<A: Arithmetic>(&self, other: &Matrix, ops: &A) -> (r: bool)
        requires
            steady(ops),
        ensures
            r == self@.close_to(other@, ops),
    {
        proof {
            use_type_invariant(self);
            use_type_invariant(other);
        }
        if self.nrows != other.nrows || self.ncols != other.ncols {
            return false;
        }
        let mut i: usize = 0;
        while i < self.cells.len()
            invariant
                steady(ops),
                self.cells@.len() == other.cells@.len(),
                i <= self.cells.len(),
                forall|k: int| 0 <= k < i ==> close(ops, #[trigger] self.cells@[k], other.cells@[k]),
            decreases self.cells.len() - i,
        {
            if !nearly_equal(ops, self.cells[i], other.cells[i]) {
                assert(!close(ops, self@.cells[i as int], other@.cells[i as int]));
                return false;
            }
            i += 1;
        }
        true
    }
}

/// In `ops`, 0 and 1 are neutral for the numbers `xs`: each of them is
/// finite, times 1 it is itself and times 0 it is 0; adding 0 to a number
/// leaves the number; and equal finite numbers differ by 0. The arithmetic
/// of binary64 is such, whatever finite numbers `xs` holds.
pub open spec fn neutral<A: Arithmetic>(ops: &A, xs: Seq<Scalar>) -> bool {
    &&& forall|i: int|
        0 <= i < xs.len() ==> (#[trigger] xs[i]).finite() && product(
            ops,
            xs[i],
            Scalar::spec_one(),
        ) == xs[i] && product(ops, xs[i], Scalar::spec_zero()).same(Scalar::spec_zero())
    &&& forall|a: Scalar, z: Scalar|
        !a.nan() && z.same(Scalar::spec_zero()) ==> (#[trigger] sum(ops, a, z)).same(a)
    &&& forall|a: Scalar, z: Scalar|
        !a.nan() && z.same(Scalar::spec_zero()) ==> (#[trigger] sum(ops, z, a)).same(a)
    &&& forall|a: Scalar, b: Scalar|
        a.finite() && a.same(b) ==> (#[trigger] difference(ops, a, b)).same(Scalar::spec_zero())
}

/// Row `r` of a square matrix by column `c` of the identity, summed up to
/// `k`, is 0 before the sum reaches the diagonal and the cell `(r, c)` of the
/// matrix behind it.
pub proof fn lemma_row_by_identity<A: Arithmetic>(m: MatrixView, r: int, c: int, k: nat, ops: &A)
    requires
        m.wf(),
        m.nrows == m.ncols,
        0 <= r < m.nrows,
        0 <= c < m.ncols,
        k <= m.ncols,
        neutral(ops, m.cells),
    ensures
        k <= c ==> m.row_by_column(MatrixView::identity(m.ncols), r, c, k, ops).same(
            Scalar::spec_zero(),
        ),
        k > c ==> m.row_by_column(MatrixView::identity(m.ncols), r, c, k, ops).same(m.at(r, c)),
    decreases k,
{
    crate::scalar::lemma_constants();
    if k > 0 {
        let i = (k - 1) as int;
        lemma_row_by_identity(m, r, c, (k - 1) as nat, ops);
        lemma_index_in_grid(m.ncols, m.nrows, i as nat, r as nat);
        lemma_index_in_grid(m.ncols, m.nrows, c as nat, r as nat);
        assert(m.nrows * m.ncols == m.ncols * m.nrows) by (nonlinear_arith);
        let x = m.at(r, i);
        assert(x == m.cells[r * m.ncols + i]);
        assert(m.at(r, c).finite()) by {
            assert(m.at(r, c) == m.cells[r * m.ncols + c]);
        }
        assert(x.finite());
        lemma_from_fn(
            m.ncols,
            m.ncols,
            |r: int, c: int|
                if r == c {
                    Scalar::spec_one()
                } else {
                    Scalar::spec_zero()
                },
            i,
            c,
        );
        let before = m.row_by_column(MatrixView::identity(m.ncols), r, c, (k - 1) as nat, ops);
        let term = product(ops, x, MatrixView::identity(m.ncols).at(i, c));
        if i == c {
            assert(term == x);
            assert(sum(ops, before, x).same(x));
        } else {
            assert(term.same(Scalar::spec_zero()));
            assert(sum(ops, before, term).same(before));
        }
    }
}

/// A square matrix times the identity is the matrix again, up to the sign
/// of its zeros and so up to rounding, in an arithmetic in which 0 and 1
/// are neutral for the cells of the matrix.
pub proof fn lemma_times_identity<A: Arithmetic>(m: MatrixView, ops: &A)
    requires
        m.wf(),
        m.nrows == m.ncols,
        neutral(ops, m.cells),
    ensures
        forall|r: int, c: int|
            0 <= r < m.nrows && 0 <= c < m.ncols ==> (#[trigger] m.multiplied(
                MatrixView::identity(m.ncols),
                ops,
            ).at(r, c)).same(m.at(r, c)),
        m.multiplied(MatrixView::identity(m.ncols), ops).close_to(m, ops),
{
    let identity = MatrixView::identity(m.ncols);
    let p = m.multiplied(identity, ops);
    assert forall|r: int, c: int| 0 <= r < m.nrows && 0 <= c < m.ncols implies (#[trigger] p.at(
        r,
        c,
    )).same(m.at(r, c)) by {
        lemma_from_fn(
            m.nrows,
            m.ncols,
            |r: int, c: int| m.row_by_column(identity, r, c, m.ncols, ops),
            r,
            c,
        );
        lemma_row_by_identity(m, r, c, m.ncols, ops);
    }
    assert forall|i: int| 0 <= i < p.cells.len() implies close(
        ops,
        #[trigger] p.cells[i],
        m.cells[i],
    ) by {
        let r = i / m.ncols as int;
        let c = i % m.ncols as int;
        vstd::arithmetic::div_mod::lemma_fundamental_div_mod(i, m.ncols as int);
        assert(0 <= r < m.nrows) by (nonlinear_arith)
            requires
                0 <= i < m.nrows * m.ncols,
                i == m.ncols * r + c,
                0 <= c < m.ncols,
        ;
        assert(m.ncols * r == r * m.ncols) by (nonlinear_arith);
        assert(p.at(r, c).same(m.at(r, c)));
        assert(m.cells[i].finite());
        lemma_same_is_close(ops, p.cells[i], m.cells[i]);
    }
}

/// Numbers whose difference is 0 are close.
pub proof fn lemma_same_is_close<A: Arithmetic>(ops: &A, a: Scalar, b: Scalar)
    requires
        difference(ops, a, b).same(Scalar::spec_zero()),
    ensures
        close(ops, a, b),
{
    crate::scalar::lemma_constants();
    let d = difference(ops, a, b).bits;
    assert((d & 0x7FFF_FFFF_FFFF_FFFFu64) & 0x7FFF_FFFF_FFFF_FFFFu64 == d
        & 0x7FFF_FFFF_FFFF_FFFFu64) by (bit_vector);
    assert((d & 0x7FFF_FFFF_FFFF_FFFFu64) & 0x8000_0000_0000_0000u64 == 0) by (bit_vector);
    assert(0x3EE4_F8B5_88E3_68F1u64 & 0x7FFF_FFFF_FFFF_FFFFu64 == 0x3EE4_F8B5_88E3_68F1u64)
        by (bit_vector);
    assert(0x3EE4_F8B5_88E3_68F1u64 & 0x8000_0000_0000_0000u64 == 0) by (bit_vector);
}

/// Exchanging rows and columns twice gives the matrix back.
pub proof fn lemma_transposed_twice(m: MatrixView)
    requires
        m.wf(),
    ensures
        m.transposed().transposed() == m,
{
    let t = m.transposed();
    let tt = t.transposed();
    assert(m.nrows * m.ncols == m.ncols * m.nrows) by (nonlinear_arith);
    assert forall|i: int| 0 <= i < m.cells.len() implies tt.cells[i] == m.cells[i] by {
        if m.ncols > 0 {
            let r = i / m.ncols as int;
            let c = i % m.ncols as int;
            vstd::arithmetic::div_mod::lemma_fundamental_div_mod(i, m.ncols as int);
            assert(0 <= c < m.ncols);
            assert(0 <= r < m.nrows) by (nonlinear_arith)
                requires
                    0 <= i < m.nrows * m.ncols,
                    i == m.ncols * r + c,
                    0 <= c < m.ncols,
            ;
            lemma_index_in_grid(m.nrows, m.ncols, r as nat, c as nat);
            assert(m.ncols * r == r * m.ncols) by (nonlinear_arith);
        }
    }
    assert(tt.cells =~= m.cells);
}

/// Each cell of the transposed matrix is the cell across the diagonal, and
/// each cell of a matrix without a row and a column is the cell that was not
/// removed.
pub proof fn lemma_cells(m: MatrixView, r: int, c: int, row: int, col: int)
    requires
        m.wf(),
    ensures
        0 <= r < m.ncols && 0 <= c < m.nrows ==> m.transposed().at(r, c) == m.at(c, r),
        0 <= r < m.nrows - 1 && 0 <= c < m.ncols - 1 ==> m.without(row, col).at(r, c) == m.at(
            MatrixView::skipping(r, row),
            MatrixView::skipping(c, col),
        ),
{
    if 0 <= r < m.ncols && 0 <= c < m.nrows {
        lemma_from_fn(m.ncols, m.nrows, |r: int, c: int| m.at(c, r), r, c);
    }
    if 0 <= r < m.nrows - 1 && 0 <= c < m.ncols - 1 {
        lemma_from_fn(
            (m.nrows - 1) as nat,
            (m.ncols - 1) as nat,
            |r: int, c: int| m.at(MatrixView::skipping(r, row), MatrixView::skipping(c, col)),
            r,
            c,
        );
    }
}

} // verus!
