//! A 2-D matrix system to make the neural network implementation easier.
//!
//! The matrix is generic over its element type through the numeric
//! capability traits of [`crate::num`]. Exact operations (building,
//! transposing, multiplying, column maxima, element-wise arithmetic)
//! need only [`Num`]; the activation helpers and the mean-squared
//! difference additionally need [`Real`].
//!
//! Every operation that needs a shape relation between its operands
//! checks it and returns a dedicated error value instead of panicking;
//! the error carries both operand shapes for diagnostics.

use vstd::prelude::*;
use crate::num::Num;
use crate::num::Real;

verus! {

/// Error returned when two matrices with incompatible dimensions are
/// multiplied: the left operand's column count differs from the right
/// operand's row count. Carries both operand shapes for diagnostics.
#[derive(Clone, Copy, Debug, PartialEq, Eq, Structural)]
pub struct MatMulDimMismatchErr {
    pub left_rows: usize,
    pub left_cols: usize,
    pub right_rows: usize,
    pub right_cols: usize,
}

/// Error returned when the mean squared difference of two matrices with
/// different shapes is queried. Carries both operand shapes.
#[derive(Clone, Copy, Debug, PartialEq, Eq, Structural)]
pub struct MSEDimMismatchErr {
    pub left_rows: usize,
    pub left_cols: usize,
    pub right_rows: usize,
    pub right_cols: usize,
}

/// Error returned when the column maxima of a matrix without elements
/// (zero rows, or rows of zero length) are queried.
#[derive(Clone, Copy, Debug, PartialEq, Eq, Structural)]
pub struct EmptyMatrixErr;

/// Error returned when two matrices with different shapes are combined
/// element-wise. Carries both operand shapes.
#[derive(Clone, Copy, Debug, PartialEq, Eq, Structural)]
pub struct ElemDimMismatchErr {
    pub left_rows: usize,
    pub left_cols: usize,
    pub right_rows: usize,
    pub right_cols: usize,
}

/// A 2-D generic matrix with `Vec<Vec<T>>` as underlying data structure.
///
/// `dim` caches the shape as `(rows, columns)`; every row of `data` has
/// exactly `dim.1` entries, which [`Matrix::wf`] states.
#[derive(Debug)]
pub struct Matrix<T> {
    pub data: Vec<Vec<T>>,
    pub dim: (usize, usize),
}

impl<T> View for Matrix<T> {
    type V = Seq<Seq<T>>;

    open spec fn view(&self) -> Seq<Seq<T>> {
        Seq::new(self.data@.len(), |i: int| self.data@[i]@)
    }
}

/// The transpose of a grid with `cols` columns: entry `(i, j)` of the
/// result is entry `(j, i)` of `a`.
pub open spec fn transpose_seq<T>(a: Seq<Seq<T>>, cols: nat) -> Seq<Seq<T>> {
    Seq::new(cols, |i: int| Seq::new(a.len(), |j: int| a[j][i]))
}

/// The inner product of row `i` of `a` with column `j` of `b` over the
/// first `n` terms: the sum over `k < n` of `a[i][k]·b[k][j]`, folded
/// left with the element type's addition from its zero.
pub open spec fn dot_sum<T: Num>(a: Seq<Seq<T>>, b: Seq<Seq<T>>, i: int, j: int, n: int) -> T
    decreases n,
{
    if n <= 0 {
        T::zero_s()
    } else {
        dot_sum(a, b, i, j, n - 1).add_s(a[i][n - 1].mul_s(b[n - 1][j]))
    }
}

/// The matrix product of `a` and `b`, where `b` has `p` columns: the
/// entry at `(i, j)` is the inner product of row `i` of `a` with column
/// `j` of `b`.
pub open spec fn mat_mul_seq<T: Num>(a: Seq<Seq<T>>, b: Seq<Seq<T>>, p: nat) -> Seq<Seq<T>> {
    Seq::new(a.len(), |i: int| Seq::new(p, |j: int| dot_sum(a, b, i, j, b.len() as int)))
}

/// Element-wise sum of two equally shaped grids.
pub open spec fn ew_add_seq<T: Num>(a: Seq<Seq<T>>, b: Seq<Seq<T>>) -> Seq<Seq<T>> {
    Seq::new(a.len(), |i: int| Seq::new(a[i].len(), |j: int| a[i][j].add_s(b[i][j])))
}

/// Element-wise difference of two equally shaped grids.
pub open spec fn ew_sub_seq<T: Num>(a: Seq<Seq<T>>, b: Seq<Seq<T>>) -> Seq<Seq<T>> {
    Seq::new(a.len(), |i: int| Seq::new(a[i].len(), |j: int| a[i][j].sub_s(b[i][j])))
}

/// Element-wise (Hadamard) product of two equally shaped grids.
pub open spec fn ew_mul_seq<T: Num>(a: Seq<Seq<T>>, b: Seq<Seq<T>>) -> Seq<Seq<T>> {
    Seq::new(a.len(), |i: int| Seq::new(a[i].len(), |j: int| a[i][j].mul_s(b[i][j])))
}

/// The sigmoid of every entry of a grid.
pub open spec fn sig_map<R: Real>(a: Seq<Seq<R>>) -> Seq<Seq<R>> {
    Seq::new(a.len(), |i: int| Seq::new(a[i].len(), |j: int| a[i][j].sigmoid_s()))
}

/// The sigmoid derivative `x·(1 - x)` of every entry of a grid, where
/// the entries are already-sigmoided activations.
pub open spec fn sig_prime_map<R: Real>(a: Seq<Seq<R>>) -> Seq<Seq<R>> {
    Seq::new(
        a.len(),
        |i: int| Seq::new(a[i].len(), |j: int| a[i][j].mul_s(R::one_s().sub_s(a[i][j]))),
    )
}

/// The maximum observed in column `j` over the first `n` rows of `a`,
/// seeded from the first row's value and replaced whenever a strictly
/// greater entry follows.
pub open spec fn col_max<T: Num>(a: Seq<Seq<T>>, j: int, n: int) -> T
    decreases n,
{
    if n <= 1 {
        a[0][j]
    } else {
        if col_max(a, j, n - 1).lt_s(a[n - 1][j]) {
            a[n - 1][j]
        } else {
            col_max(a, j, n - 1)
        }
    }
}

/// Folds the squared differences of the first `j` entries of two rows
/// onto `acc`, left to right.
pub open spec fn sq_acc<T: Num>(acc: T, a: Seq<T>, b: Seq<T>, j: int) -> T
    decreases j,
{
    if j <= 0 {
        acc
    } else {
        sq_acc(acc, a, b, j - 1).add_s(
            (a[j - 1].sub_s(b[j - 1])).mul_s(a[j - 1].sub_s(b[j - 1])),
        )
    }
}

/// The sum of squared element differences over the first `i` rows of
/// two grids, folded row-major from the element type's zero.
pub open spec fn sq_sum<T: Num>(a: Seq<Seq<T>>, b: Seq<Seq<T>>, i: int) -> T
    decreases i,
{
    if i <= 0 {
        T::zero_s()
    } else {
        sq_acc(sq_sum(a, b, i - 1), a[i - 1], b[i - 1], a[i - 1].len() as int)
    }
}

/// The mean squared difference of two equally shaped grids with `cells`
/// entries in total.
pub open spec fn mse_val<T: Real>(a: Seq<Seq<T>>, b: Seq<Seq<T>>, cells: usize) -> T {
    sq_sum(a, b, a.len() as int).div_n_s(cells)
}

impl<T> Matrix<T> {
    /// Shape consistency: `dim` agrees with the stored rows.
    pub open spec fn wf(&self) -> bool {
        &&& self@.len() == self.dim.0
        &&& forall|i: int| 0 <= i < self@.len() ==> (#[trigger] self@[i]).len() == self.dim.1
    }

    /// Creates a new, empty matrix of shape `(0, 0)`.
    pub fn new() -> (m: Matrix<T>)
        ensures
            m.wf(),
            m.dim == (0usize, 0usize),
            m@ =~= Seq::<Seq<T>>::empty(),
    {
        Matrix { data: Vec::new(), dim: (0, 0) }
    }

    /// Builds a matrix from a sequence of equal-length rows and records
    /// its shape; the caller is responsible for the rows sharing a length.
    pub fn from_rows(data: Vec<Vec<T>>) -> (m: Matrix<T>)
        requires
            forall|i: int| 0 <= i < data@.len() ==> (#[trigger] data@[i])@.len() == data@[0]@.len(),
        ensures
            m.wf(),
            m.dim.0 == data@.len(),
            m.dim.1 == if data@.len() > 0 { data@[0]@.len() } else { 0 },
            m@.len() == data@.len(),
            forall|i: int| 0 <= i < data@.len() ==> #[trigger] m@[i] == data@[i]@,
    {
        let dim = if data.len() > 0 {
            (data.len(), data[0].len())
        } else {
            (0, 0)
        };
        Matrix { data, dim }
    }
}

impl<T: Num> Matrix<T> {
    /// The entry in row `i`, column `j`.
    pub fn get(&self, i: usize, j: usize) -> (r: T)
        requires
            self.wf(),
            i < self.dim.0,
            j < self.dim.1,
        ensures
            r == self@[i as int][j as int],
    {
        proof {
            assert(self@[i as int] == self.data@[i as int]@);
        }
        self.data[i][j]
    }

    /// An independently owned matrix with the same shape and entries.
    pub fn duplicate(&self) -> (r: Matrix<T>)
        requires
            self.wf(),
        ensures
            r.wf(),
            r.dim == self.dim,
            r@ == self@,
    {
        let rows = self.dim.0;
        let cols = self.dim.1;
        let mut data: Vec<Vec<T>> = Vec::new();
        for i in 0..rows
            invariant
                self.wf(),
                rows == self.dim.0,
                cols == self.dim.1,
                data@.len() == i,
                forall|a: int| 0 <= a < i ==> (#[trigger] data@[a])@ == self@[a],
        {
            let mut row: Vec<T> = Vec::new();
            for j in 0..cols
                invariant
                    self.wf(),
                    rows == self.dim.0,
                    cols == self.dim.1,
                    i < rows,
                    row@.len() == j,
                    forall|b: int| 0 <= b < j ==> row@[b] == self@[i as int][b],
            {
                row.push(self.get(i, j));
            }
            proof {
                assert(row@ =~= self@[i as int]);
            }
            data.push(row);
        }
        let r = Matrix { data, dim: (rows, cols) };
        proof {
            assert(r@ =~~= self@);
        }
        r
    }

    /// Computes the dot product of this matrix with another, i.e. matrix
    /// multiplication. Succeeds exactly when this matrix's column count
    /// equals the other's row count; the result then has this matrix's
    /// rows and the other's columns, and entry `(i, j)` is the sum over
    /// `k` of `self[i][k]·another[k][j]`.
    pub fn dot(&self, another: &Matrix<T>) -> (r: Result<Matrix<T>, MatMulDimMismatchErr>)
        requires
            self.wf(),
            another.wf(),
        ensures
            r is Ok <==> self.dim.1 == another.dim.0,
            (match r {
                Ok(m) => {
                    &&& m.wf()
                    &&& m.dim.0 == self.dim.0
                    &&& m.dim.1 == another.dim.1
                    &&& m@ == mat_mul_seq(self@, another@, another.dim.1 as nat)
                    &&& forall|i: int, j: int|
                        0 <= i < self.dim.0 && 0 <= j < another.dim.1 ==> m@[i][j] == dot_sum(
                            self@,
                            another@,
                            i,
                            j,
                            self.dim.1 as int,
                        )
                },
                Err(e) => e == (MatMulDimMismatchErr {
                    left_rows: self.dim.0,
                    left_cols: self.dim.1,
                    right_rows: another.dim.0,
                    right_cols: another.dim.1,
                }),
            }),
    {
        if self.dim.1 != another.dim.0 {
            return Err(MatMulDimMismatchErr {
                left_rows: self.dim.0,
                left_cols: self.dim.1,
                right_rows: another.dim.0,
                right_cols: another.dim.1,
            });
        }
        let rows = self.dim.0;
        let inner = self.dim.1;
        let cols = another.dim.1;
        let mut data: Vec<Vec<T>> = Vec::new();
        for i in 0..rows
            invariant
                self.wf(),
                another.wf(),
                rows == self.dim.0,
                inner == self.dim.1,
                inner == another.dim.0,
                cols == another.dim.1,
                data@.len() == i,
                forall|a: int| 0 <= a < i ==> (#[trigger] data@[a])@.len() == cols,
                forall|a: int, b: int|
                    0 <= a < i && 0 <= b < cols ==> data@[a]@[b] == dot_sum(
                        self@,
                        another@,
                        a,
                        b,
                        inner as int,
                    ),
        {
            let mut row: Vec<T> = Vec::new();
            for j in 0..cols
                invariant
                    self.wf(),
                    another.wf(),
                    rows == self.dim.0,
                    inner == self.dim.1,
                    inner == another.dim.0,
                    cols == another.dim.1,
                    i < rows,
                    row@.len() == j,
                    forall|b: int| 0 <= b < j ==> row@[b] == dot_sum(
                        self@,
                        another@,
                        i as int,
                        b,
                        inner as int,
                    ),
            {
                let mut acc = T::zero();
                for k in 0..inner
                    invariant
                        self.wf(),
                        another.wf(),
                        rows == self.dim.0,
                        inner == self.dim.1,
                        inner == another.dim.0,
                        cols == another.dim.1,
                        i < rows,
                        j < cols,
                        acc == dot_sum(self@, another@, i as int, j as int, k as int),
                {
                    acc = acc.add(self.get(i, k).mul(another.get(k, j)));
                }
                row.push(acc);
            }
            data.push(row);
        }
        let m = Matrix { data, dim: (rows, cols) };
        proof {
            assert(m@ =~~= mat_mul_seq(self@, another@, another.dim.1 as nat));
        }
        Ok(m)
    }

    /// Returns the transpose of the given matrix: the shape is swapped
    /// and entry `(i, j)` of the result is entry `(j, i)` of `self`.
    pub fn transpose(&self) -> (r: Matrix<T>)
        requires
            self.wf(),
        ensures
            r.wf(),
            r.dim.0 == self.dim.1,
            r.dim.1 == self.dim.0,
            r@ == transpose_seq(self@, self.dim.1 as nat),
            forall|i: int, j: int|
                0 <= i < self.dim.1 && 0 <= j < self.dim.0 ==> r@[i][j] == self@[j][i],
    {
        let rows = self.dim.0;
        let cols = self.dim.1;
        let mut data: Vec<Vec<T>> = Vec::new();
        for i in 0..cols
            invariant
                self.wf(),
                rows == self.dim.0,
                cols == self.dim.1,
                data@.len() == i,
                forall|a: int| 0 <= a < i ==> (#[trigger] data@[a])@.len() == rows,
                forall|a: int, b: int|
                    0 <= a < i && 0 <= b < rows ==> data@[a]@[b] == self@[b][a],
        {
            let mut row: Vec<T> = Vec::new();
            for j in 0..rows
                invariant
                    self.wf(),
                    rows == self.dim.0,
                    cols == self.dim.1,
                    i < cols,
                    row@.len() == j,
                    forall|b: int| 0 <= b < j ==> row@[b] == self@[b][i as int],
            {
                row.push(self.get(j, i));
            }
            data.push(row);
        }
        let r = Matrix { data, dim: (cols, rows) };
        proof {
            assert(r@ =~~= transpose_seq(self@, self.dim.1 as nat));
        }
        r
    }

    /// Finds the maximum of each column in the matrix and returns them
    /// as a `Vec`. Succeeds exactly when the matrix has at least one row
    /// and at least one column; the per-column maximum is seeded from
    /// the first row's value, so matrices of negative values are handled
    /// correctly.
    pub fn max(&self) -> (r: Result<Vec<T>, EmptyMatrixErr>)
        requires
            self.wf(),
        ensures
            r is Ok <==> (self.dim.0 > 0 && self.dim.1 > 0),
            (match r {
                Ok(v) => {
                    &&& v@.len() == self.dim.1
                    &&& forall|j: int|
                        0 <= j < self.dim.1 ==> v@[j] == col_max(self@, j, self.dim.0 as int)
                },
                Err(e) => e == EmptyMatrixErr,
            }),
    {
        if self.dim.0 == 0 || self.dim.1 == 0 {
            return Err(EmptyMatrixErr);
        }
        let rows = self.dim.0;
        let cols = self.dim.1;
        let mut maxes: Vec<T> = Vec::new();
        for j in 0..cols
            invariant
                self.wf(),
                rows == self.dim.0,
                cols == self.dim.1,
                rows > 0,
                maxes@.len() == j,
                forall|b: int| 0 <= b < j ==> maxes@[b] == col_max(self@, b, 1),
        {
            maxes.push(self.get(0, j));
        }
        for i in 1..rows
            invariant
                self.wf(),
                rows == self.dim.0,
                cols == self.dim.1,
                rows > 0,
                maxes@.len() == cols,
                forall|b: int| 0 <= b < cols ==> maxes@[b] == col_max(self@, b, i as int),
        {
            for j in 0..cols
                invariant
                    self.wf(),
                    rows == self.dim.0,
                    cols == self.dim.1,
                    1 <= i < rows,
                    maxes@.len() == cols,
                    forall|b: int| 0 <= b < j ==> maxes@[b] == col_max(self@, b, i as int + 1),
                    forall|b: int| j <= b < cols ==> maxes@[b] == col_max(self@, b, i as int),
            {
                let each = self.get(i, j);
                if maxes[j].lt(each) {
                    maxes.set(j, each);
                }
            }
        }
        Ok(maxes)
    }

    /// Element-wise sum with another matrix of the same shape. Succeeds
    /// exactly when the shapes agree.
    pub fn add(&self, other: &Matrix<T>) -> (r: Result<Matrix<T>, ElemDimMismatchErr>)
        requires
            self.wf(),
            other.wf(),
        ensures
            r is Ok <==> self.dim == other.dim,
            (match r {
                Ok(m) => {
                    &&& m.wf()
                    &&& m.dim == self.dim
                    &&& m@ == ew_add_seq(self@, other@)
                    &&& forall|i: int, j: int|
                        0 <= i < self.dim.0 && 0 <= j < self.dim.1 ==> m@[i][j]
                            == self@[i][j].add_s(other@[i][j])
                },
                Err(e) => e == (ElemDimMismatchErr {
                    left_rows: self.dim.0,
                    left_cols: self.dim.1,
                    right_rows: other.dim.0,
                    right_cols: other.dim.1,
                }),
            }),
    {
        if self.dim.0 != other.dim.0 || self.dim.1 != other.dim.1 {
            return Err(ElemDimMismatchErr {
                left_rows: self.dim.0,
                left_cols: self.dim.1,
                right_rows: other.dim.0,
                right_cols: other.dim.1,
            });
        }
        let rows = self.dim.0;
        let cols = self.dim.1;
        let mut data: Vec<Vec<T>> = Vec::new();
        for i in 0..rows
            invariant
                self.wf(),
                other.wf(),
                rows == self.dim.0,
                cols == self.dim.1,
                self.dim == other.dim,
                data@.len() == i,
                forall|a: int| 0 <= a < i ==> (#[trigger] data@[a])@.len() == cols,
                forall|a: int, b: int|
                    0 <= a < i && 0 <= b < cols ==> data@[a]@[b] == self@[a][b].add_s(other@[a][b]),
        {
            let mut row: Vec<T> = Vec::new();
            for j in 0..cols
                invariant
                    self.wf(),
                    other.wf(),
                    rows == self.dim.0,
                    cols == self.dim.1,
                    self.dim == other.dim,
                    i < rows,
                    row@.len() == j,
                    forall|b: int| 0 <= b < j ==> row@[b] == self@[i as int][b].add_s(
                        other@[i as int][b],
                    ),
            {
                row.push(self.get(i, j).add(other.get(i, j)));
            }
            data.push(row);
        }
        let m = Matrix { data, dim: (rows, cols) };
        proof {
            assert(m@ =~~= ew_add_seq(self@, other@));
        }
        Ok(m)
    }

    /// Element-wise difference with another matrix of the same shape.
    /// Succeeds exactly when the shapes agree.
    pub fn sub(&self, other: &Matrix<T>) -> (r: Result<Matrix<T>, ElemDimMismatchErr>)
        requires
            self.wf(),
            other.wf(),
        ensures
            r is Ok <==> self.dim == other.dim,
            (match r {
                Ok(m) => {
                    &&& m.wf()
                    &&& m.dim == self.dim
                    &&& m@ == ew_sub_seq(self@, other@)
                    &&& forall|i: int, j: int|
                        0 <= i < self.dim.0 && 0 <= j < self.dim.1 ==> m@[i][j]
                            == self@[i][j].sub_s(other@[i][j])
                },
                Err(e) => e == (ElemDimMismatchErr {
                    left_rows: self.dim.0,
                    left_cols: self.dim.1,
                    right_rows: other.dim.0,
                    right_cols: other.dim.1,
                }),
            }),
    {
        if self.dim.0 != other.dim.0 || self.dim.1 != other.dim.1 {
            return Err(ElemDimMismatchErr {
                left_rows: self.dim.0,
                left_cols: self.dim.1,
                right_rows: other.dim.0,
                right_cols: other.dim.1,
            });
        }
        let rows = self.dim.0;
        let cols = self.dim.1;
        let mut data: Vec<Vec<T>> = Vec::new();
        for i in 0..rows
            invariant
                self.wf(),
                other.wf(),
                rows == self.dim.0,
                cols == self.dim.1,
                self.dim == other.dim,
                data@.len() == i,
                forall|a: int| 0 <= a < i ==> (#[trigger] data@[a])@.len() == cols,
                forall|a: int, b: int|
                    0 <= a < i && 0 <= b < cols ==> data@[a]@[b] == self@[a][b].sub_s(other@[a][b]),
        {
            let mut row: Vec<T> = Vec::new();
            for j in 0..cols
                invariant
                    self.wf(),
                    other.wf(),
                    rows == self.dim.0,
                    cols == self.dim.1,
                    self.dim == other.dim,
                    i < rows,
                    row@.len() == j,
                    forall|b: int| 0 <= b < j ==> row@[b] == self@[i as int][b].sub_s(
                        other@[i as int][b],
                    ),
            {
                row.push(self.get(i, j).sub(other.get(i, j)));
            }
            data.push(row);
        }
        let m = Matrix { data, dim: (rows, cols) };
        proof {
            assert(m@ =~~= ew_sub_seq(self@, other@));
        }
        Ok(m)
    }

    /// Element-wise (Hadamard) product with another matrix of the same
    /// shape. Succeeds exactly when the shapes agree.
    pub fn mul(&self, other: &Matrix<T>) -> (r: Result<Matrix<T>, ElemDimMismatchErr>)
        requires
            self.wf(),
            other.wf(),
        ensures
            r is Ok <==> self.dim == other.dim,
            (match r {
                Ok(m) => {
                    &&& m.wf()
                    &&& m.dim == self.dim
                    &&& m@ == ew_mul_seq(self@, other@)
                    &&& forall|i: int, j: int|
                        0 <= i < self.dim.0 && 0 <= j < self.dim.1 ==> m@[i][j]
                            == self@[i][j].mul_s(other@[i][j])
                },
                Err(e) => e == (ElemDimMismatchErr {
                    left_rows: self.dim.0,
                    left_cols: self.dim.1,
                    right_rows: other.dim.0,
                    right_cols: other.dim.1,
                }),
            }),
    {
        if self.dim.0 != other.dim.0 || self.dim.1 != other.dim.1 {
            return Err(ElemDimMismatchErr {
                left_rows: self.dim.0,
                left_cols: self.dim.1,
                right_rows: other.dim.0,
                right_cols: other.dim.1,
            });
        }
        let rows = self.dim.0;
        let cols = self.dim.1;
        let mut data: Vec<Vec<T>> = Vec::new();
        for i in 0..rows
            invariant
                self.wf(),
                other.wf(),
                rows == self.dim.0,
                cols == self.dim.1,
                self.dim == other.dim,
                data@.len() == i,
                forall|a: int| 0 <= a < i ==> (#[trigger] data@[a])@.len() == cols,
                forall|a: int, b: int|
                    0 <= a < i && 0 <= b < cols ==> data@[a]@[b] == self@[a][b].mul_s(other@[a][b]),
        {
            let mut row: Vec<T> = Vec::new();
            for j in 0..cols
                invariant
                    self.wf(),
                    other.wf(),
                    rows == self.dim.0,
                    cols == self.dim.1,
                    self.dim == other.dim,
                    i < rows,
                    row@.len() == j,
                    forall|b: int| 0 <= b < j ==> row@[b] == self@[i as int][b].mul_s(
                        other@[i as int][b],
                    ),
            {
                row.push(self.get(i, j).mul(other.get(i, j)));
            }
            data.push(row);
        }
        let m = Matrix { data, dim: (rows, cols) };
        proof {
            assert(m@ =~~= ew_mul_seq(self@, other@));
        }
        Ok(m)
    }

    /// Compound element-wise addition: replaces this matrix by its sum
    /// with another of the same shape. On a shape mismatch the matrix is
    /// left unchanged and the error is returned.
    pub fn add_assign(&mut self, other: &Matrix<T>) -> (r: Result<(), ElemDimMismatchErr>)
        requires
            old(self).wf(),
            other.wf(),
        ensures
            r is Ok <==> old(self).dim == other.dim,
            (match r {
                Ok(u) => {
                    &&& final(self).wf()
                    &&& final(self).dim == old(self).dim
                    &&& final(self)@ == ew_add_seq(old(self)@, other@)
                },
                Err(e) => {
                    &&& *final(self) == *old(self)
                    &&& e == (ElemDimMismatchErr {
                        left_rows: old(self).dim.0,
                        left_cols: old(self).dim.1,
                        right_rows: other.dim.0,
                        right_cols: other.dim.1,
                    })
                },
            }),
    {
        match self.add(other) {
            Ok(m) => {
                *self = m;
                Ok(())
            },
            Err(e) => Err(e),
        }
    }
}

/// Loops through the matrix and calculates the sigmoid of each value.
pub fn sigmoid<R: Real>(current: &Matrix<R>) -> (r: Matrix<R>)
    requires
        current.wf(),
    ensures
        r.wf(),
        r.dim == current.dim,
        r@ == sig_map(current@),
        forall|i: int, j: int|
            0 <= i < current.dim.0 && 0 <= j < current.dim.1 ==> r@[i][j]
                == current@[i][j].sigmoid_s(),
{
    let rows = current.dim.0;
    let cols = current.dim.1;
    let mut data: Vec<Vec<R>> = Vec::new();
    for i in 0..rows
        invariant
            current.wf(),
            rows == current.dim.0,
            cols == current.dim.1,
            data@.len() == i,
            forall|a: int| 0 <= a < i ==> (#[trigger] data@[a])@.len() == cols,
            forall|a: int, b: int|
                0 <= a < i && 0 <= b < cols ==> data@[a]@[b] == current@[a][b].sigmoid_s(),
    {
        let mut row: Vec<R> = Vec::new();
        for j in 0..cols
            invariant
                current.wf(),
                rows == current.dim.0,
                cols == current.dim.1,
                i < rows,
                row@.len() == j,
                forall|b: int| 0 <= b < j ==> row@[b] == current@[i as int][b].sigmoid_s(),
        {
            row.push(current.get(i, j).sigmoid());
        }
        data.push(row);
    }
    let r = Matrix { data, dim: (rows, cols) };
    proof {
        assert(r@ =~~= sig_map(current@));
    }
    r
}

/// Loops through the matrix and calculates the sigmoid derivative
/// `x·(1 - x)` of each value, where each value is an already-sigmoided
/// activation (not a raw input).
pub fn sigmoid_prime<R: Real>(current: &Matrix<R>) -> (r: Matrix<R>)
    requires
        current.wf(),
    ensures
        r.wf(),
        r.dim == current.dim,
        r@ == sig_prime_map(current@),
        forall|i: int, j: int|
            0 <= i < current.dim.0 && 0 <= j < current.dim.1 ==> r@[i][j]
                == current@[i][j].mul_s(R::one_s().sub_s(current@[i][j])),
{
    let rows = current.dim.0;
    let cols = current.dim.1;
    let mut data: Vec<Vec<R>> = Vec::new();
    for i in 0..rows
        invariant
            current.wf(),
            rows == current.dim.0,
            cols == current.dim.1,
            data@.len() == i,
            forall|a: int| 0 <= a < i ==> (#[trigger] data@[a])@.len() == cols,
            forall|a: int, b: int|
                0 <= a < i && 0 <= b < cols ==> data@[a]@[b] == current@[a][b].mul_s(
                    R::one_s().sub_s(current@[a][b]),
                ),
    {
        let mut row: Vec<R> = Vec::new();
        for j in 0..cols
            invariant
                current.wf(),
                rows == current.dim.0,
                cols == current.dim.1,
                i < rows,
                row@.len() == j,
                forall|b: int| 0 <= b < j ==> row@[b] == current@[i as int][b].mul_s(
                    R::one_s().sub_s(current@[i as int][b]),
                ),
        {
            let e = current.get(i, j);
            row.push(e.mul(R::one().sub(e)));
        }
        data.push(row);
    }
    let r = Matrix { data, dim: (rows, cols) };
    proof {
        assert(r@ =~~= sig_prime_map(current@));
    }
    r
}

/// Finds the mean squared difference of a matrix with another: the mean
/// over all cells of the squared element difference. Succeeds exactly
/// when the shapes agree.
pub fn mse_diff<R: Real>(one: &Matrix<R>, another: &Matrix<R>) -> (r: Result<
    R,
    MSEDimMismatchErr,
>)
    requires
        one.wf(),
        another.wf(),
        one.dim.0 * one.dim.1 <= usize::MAX,
    ensures
        r is Ok <==> one.dim == another.dim,
        (match r {
            Ok(v) => v == mse_val(one@, another@, (one.dim.0 * one.dim.1) as usize),
            Err(e) => e == (MSEDimMismatchErr {
                left_rows: one.dim.0,
                left_cols: one.dim.1,
                right_rows: another.dim.0,
                right_cols: another.dim.1,
            }),
        }),
{
    if one.dim.0 != another.dim.0 || one.dim.1 != another.dim.1 {
        return Err(MSEDimMismatchErr {
            left_rows: one.dim.0,
            left_cols: one.dim.1,
            right_rows: another.dim.0,
            right_cols: another.dim.1,
        });
    }
    let rows = one.dim.0;
    let cols = one.dim.1;
    let mut sum = R::zero();
    for i in 0..rows
        invariant
            one.wf(),
            another.wf(),
            rows == one.dim.0,
            cols == one.dim.1,
            one.dim == another.dim,
            sum == sq_sum(one@, another@, i as int),
    {
        for j in 0..cols
            invariant
                one.wf(),
                another.wf(),
                rows == one.dim.0,
                cols == one.dim.1,
                one.dim == another.dim,
                i < rows,
                sum == sq_acc(sq_sum(one@, another@, i as int), one@[i as int], another@[i as int], j as int),
        {
            let diff = one.get(i, j).sub(another.get(i, j));
            sum = sum.add(diff.mul(diff));
        }
    }
    let cells = rows * cols;
    Ok(sum.div_n(cells))
}

/// Calculates the mean squared difference between two matrices that are
/// known to share a shape.
pub fn mean_loss<R: Real>(a: &Matrix<R>, b: &Matrix<R>) -> (r: R)
    requires
        a.wf(),
        b.wf(),
        a.dim == b.dim,
        a.dim.0 * a.dim.1 <= usize::MAX,
    ensures
        r == mse_val(a@, b@, (a.dim.0 * a.dim.1) as usize),
{
    match mse_diff(a, b) {
        Ok(v) => v,
        Err(_) => {
            proof {
                assert(false);
            }
            R::zero()
        },
    }
}

/// Divides each value in the matrix by the given per-column maximum.
pub fn normalize_val<R: Real>(max: &Vec<R>, array: &mut Matrix<R>)
    requires
        old(array).wf(),
        max@.len() == old(array).dim.1,
    ensures
        final(array).wf(),
        final(array).dim == old(array).dim,
        forall|i: int, j: int|
            0 <= i < final(array).dim.0 && 0 <= j < final(array).dim.1 ==> final(array)@[i][j]
                == old(array)@[i][j].div_s(max@[j]),
{
    let rows = array.dim.0;
    let cols = array.dim.1;
    let mut data: Vec<Vec<R>> = Vec::new();
    for i in 0..rows
        invariant
            old(array) == array,
            array.wf(),
            rows == array.dim.0,
            cols == array.dim.1,
            max@.len() == cols,
            data@.len() == i,
            forall|a: int| 0 <= a < i ==> (#[trigger] data@[a])@.len() == cols,
            forall|a: int, b: int|
                0 <= a < i && 0 <= b < cols ==> data@[a]@[b] == array@[a][b].div_s(max@[b]),
    {
        let mut row: Vec<R> = Vec::new();
        for j in 0..cols
            invariant
                old(array) == array,
                array.wf(),
                rows == array.dim.0,
                cols == array.dim.1,
                max@.len() == cols,
                i < rows,
                row@.len() == j,
                forall|b: int| 0 <= b < j ==> row@[b] == array@[i as int][b].div_s(max@[b]),
        {
            row.push(array.get(i, j).div(max[j]));
        }
        data.push(row);
    }
    *array = Matrix { data, dim: (rows, cols) };
}

/// Multiplies each value in the matrix by the given per-column maximum,
/// undoing a normalization.
pub fn denormalize_val<R: Real>(max: &Vec<R>, array: &mut Matrix<R>)
    requires
        old(array).wf(),
        max@.len() == old(array).dim.1,
    ensures
        final(array).wf(),
        final(array).dim == old(array).dim,
        forall|i: int, j: int|
            0 <= i < final(array).dim.0 && 0 <= j < final(array).dim.1 ==> final(array)@[i][j]
                == old(array)@[i][j].mul_s(max@[j]),
{
    let rows = array.dim.0;
    let cols = array.dim.1;
    let mut data: Vec<Vec<R>> = Vec::new();
    for i in 0..rows
        invariant
            old(array) == array,
            array.wf(),
            rows == array.dim.0,
            cols == array.dim.1,
            max@.len() == cols,
            data@.len() == i,
            forall|a: int| 0 <= a < i ==> (#[trigger] data@[a])@.len() == cols,
            forall|a: int, b: int|
                0 <= a < i && 0 <= b < cols ==> data@[a]@[b] == array@[a][b].mul_s(max@[b]),
    {
        let mut row: Vec<R> = Vec::new();
        for j in 0..cols
            invariant
                old(array) == array,
                array.wf(),
                rows == array.dim.0,
                cols == array.dim.1,
                max@.len() == cols,
                i < rows,
                row@.len() == j,
                forall|b: int| 0 <= b < j ==> row@[b] == array@[i as int][b].mul_s(max@[b]),
        {
            row.push(array.get(i, j).mul(max[j]));
        }
        data.push(row);
    }
    *array = Matrix { data, dim: (rows, cols) };
}

/// Transposing twice gives back the grid it started from, element for
/// element: for every grid `a` of shape `rows x cols` with rows of equal
/// length, the double transpose equals `a`.
pub proof fn lemma_transpose_involution<T>(a: Seq<Seq<T>>, rows: nat, cols: nat)
    requires
        a.len() == rows,
        forall|i: int| 0 <= i < rows ==> (#[trigger] a[i]).len() == cols,
    ensures
        transpose_seq(transpose_seq(a, cols), rows) =~~= a,
{
}

/// The squared-difference fold of a row with itself keeps a zero
/// accumulator at zero, as long as the row's entries are exact.
proof fn lemma_sq_acc_self<T: Real>(a: Seq<T>, j: int)
    requires
        forall|b: int| 0 <= b < j ==> (#[trigger] a[b]).exact_s(),
    ensures
        sq_acc(T::zero_s(), a, a, j) == T::zero_s(),
    decreases j,
{
    if j > 0 {
        lemma_sq_acc_self::<T>(a, j - 1);
        T::law_sub_self(a[j - 1]);
        T::law_mul_zero();
        T::law_add_zero();
    }
}

/// The mean squared difference of a grid with itself is zero: for every
/// non-empty grid of exact values, comparing it against itself gives
/// the element type's zero.
pub proof fn lemma_mse_self<T: Real>(a: Seq<Seq<T>>, rows: usize, cols: usize)
    requires
        rows >= 1,
        cols >= 1,
        rows * cols <= usize::MAX,
        a.len() == rows,
        forall|i: int| 0 <= i < rows ==> (#[trigger] a[i]).len() == cols,
        forall|i: int, j: int| 0 <= i < rows && 0 <= j < cols ==> (#[trigger] a[i][j]).exact_s(),
    ensures
        mse_val(a, a, (rows * cols) as usize) == T::zero_s(),
{
    assert forall|i: int| 0 <= i <= rows implies sq_sum(a, a, i) == T::zero_s() by {
        lemma_sq_sum_self::<T>(a, i, cols as int);
    }
    assert(rows * cols >= 1) by (nonlinear_arith)
        requires
            rows >= 1,
            cols >= 1,
    ;
    T::law_div_n_zero((rows * cols) as usize);
}

/// The squared-difference sum of a grid with itself is zero over its
/// first `i` rows of exact values.
proof fn lemma_sq_sum_self<T: Real>(a: Seq<Seq<T>>, i: int, cols: int)
    requires
        i <= a.len(),
        forall|r: int| 0 <= r < a.len() ==> (#[trigger] a[r]).len() == cols,
        forall|r: int, c: int| 0 <= r < a.len() && 0 <= c < cols ==> (#[trigger] a[r][c]).exact_s(),
    ensures
        sq_sum(a, a, i) == T::zero_s(),
    decreases i,
{
    if i > 0 {
        lemma_sq_sum_self::<T>(a, i - 1, cols);
        lemma_sq_acc_self::<T>(a[i - 1], a[i - 1].len() as int);
    }
}

} // verus!
