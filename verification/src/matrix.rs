//! The dense row-major matrix type and its structural operations.

use vstd::prelude::*;

verus! {

/// Why a matrix operation was refused.
#[derive(Clone, Copy, Debug, PartialEq, Eq, Structural)]
pub enum MatrixError {
    /// A requested coordinate lies outside the matrix's dimensions.
    OutOfBounds,
    /// The operands' shapes do not fit the operation.
    ShapeMismatch,
}

/// An `m`-by-`n` dense table of elements, stored as a sequence of rows in
/// row-major order.  Every row holds exactly `n` elements; the matrix owns
/// its storage and is never mutated after construction.
#[derive(Debug)]
pub struct Matrix<T> {
    m: usize,
    n: usize,
    data: Vec<Vec<T>>,
}

impl<T> Matrix<T> {
    /// The storage invariant: one inner vector per row, each of the
    /// declared width.
    #[verifier::type_invariant]
    spec fn wf(self) -> bool {
        &&& self.data@.len() == self.m
        &&& forall|i: int| 0 <= i < self.m ==> (#[trigger] self.data@[i])@.len() == self.n
    }

    /// The number of rows, as a mathematical value.
    pub closed spec fn nrows(&self) -> nat {
        self.m as nat
    }

    /// The number of columns, as a mathematical value.
    pub closed spec fn ncols(&self) -> nat {
        self.n as nat
    }

    /// The element at row `i`, column `j`, as a mathematical value.
    pub closed spec fn entry(&self, i: int, j: int) -> T {
        self.data@[i]@[j]
    }

    /// Whether `(i, j)` is a valid coordinate of this matrix.
    pub open spec fn in_bounds(&self, i: int, j: int) -> bool {
        0 <= i < self.nrows() && 0 <= j < self.ncols()
    }

    /// Whether two matrices have the same dimensions.
    pub open spec fn same_shape(&self, other: &Matrix<T>) -> bool {
        self.nrows() == other.nrows() && self.ncols() == other.ncols()
    }

    /// Matrix equality: same dimensions and the same element at every
    /// coordinate.
    pub open spec fn eq_spec(&self, other: &Matrix<T>) -> bool {
        &&& self.same_shape(other)
        &&& forall|i: int, j: int|
            self.in_bounds(i, j) ==> self.entry(i, j) == other.entry(i, j)
    }

    /// Builds an `m`-by-`n` matrix whose element at `(i, j)` is what the
    /// generator returns for `(i, j)`.  The generator is consulted once
    /// per cell, rows outer, columns inner.
    pub fn from_fn<F: Fn(usize, usize) -> T>(m: usize, n: usize, func: F) -> (r: Matrix<T>)
        requires
            forall|i: usize, j: usize| i < m && j < n ==> call_requires(func, (i, j)),
        ensures
            r.nrows() == m,
            r.ncols() == n,
            forall|i: int, j: int|
                0 <= i < m && 0 <= j < n ==> call_ensures(
                    func,
                    (i as usize, j as usize),
                    #[trigger] r.entry(i, j),
                ),
    {
        let mut data: Vec<Vec<T>> = Vec::new();
        let mut i: usize = 0;
        while i < m
            invariant
                i <= m,
                data@.len() == i,
                forall|p: int| 0 <= p < i ==> (#[trigger] data@[p])@.len() == n,
                forall|p: int, q: int|
                    0 <= p < i && 0 <= q < n ==> call_ensures(
                        func,
                        (p as usize, q as usize),
                        #[trigger] data@[p]@[q],
                    ),
                forall|p: usize, q: usize| p < m && q < n ==> call_requires(func, (p, q)),
            decreases m - i,
        {
            let mut rowv: Vec<T> = Vec::new();
            let mut j: usize = 0;
            while j < n
                invariant
                    j <= n,
                    i < m,
                    rowv@.len() == j,
                    forall|q: int|
                        0 <= q < j ==> call_ensures(
                            func,
                            (i, q as usize),
                            #[trigger] rowv@[q],
                        ),
                    forall|p: usize, q: usize| p < m && q < n ==> call_requires(func, (p, q)),
                decreases n - j,
            {
                let v = func(i, j);
                rowv.push(v);
                j += 1;
            }
            data.push(rowv);
            i += 1;
        }
        Matrix { m, n, data }
    }

    /// The dimensions of the matrix, as `(rows, columns)`.
    pub fn size(&self) -> (r: (usize, usize))
        ensures
            r.0 == self.nrows(),
            r.1 == self.ncols(),
    {
        (self.m, self.n)
    }
}

impl<T: Copy> Matrix<T> {
    /// Builds an `m`-by-`n` matrix with every element equal to `val`.
    pub fn from_T(m: usize, n: usize, val: T) -> (r: Matrix<T>)
        ensures
            r.nrows() == m,
            r.ncols() == n,
            forall|i: int, j: int| r.in_bounds(i, j) ==> #[trigger] r.entry(i, j) == val,
    {
        let g = (|i: usize, j: usize| -> (v: T)
            ensures
                v == val,
            {
                val
            });
        let r = Matrix::from_fn(m, n, g);
        proof {
            assert forall|i: int, j: int| r.in_bounds(i, j) implies #[trigger] r.entry(i, j)
                == val by {
                assert(call_ensures(g, (i as usize, j as usize), r.entry(i, j)));
            }
        }
        r
    }

    /// Reads the element at `(row, col)` without a bounds check; for use
    /// by callers that have already established the coordinate is valid.
    pub(crate) fn get(&self, row: usize, col: usize) -> (r: T)
        requires
            self.in_bounds(row as int, col as int),
        ensures
            r == self.entry(row as int, col as int),
    {
        proof {
            use_type_invariant(&*self);
        }
        self.data[row][col]
    }

    /// Returns the element at `(row, col)`, or an out-of-bounds error when
    /// the coordinate lies outside the matrix.
    pub fn at(&self, row: usize, col: usize) -> (r: Result<T, MatrixError>)
        ensures
            self.in_bounds(row as int, col as int) ==> r == Ok::<T, MatrixError>(
                self.entry(row as int, col as int),
            ),
            !self.in_bounds(row as int, col as int) ==> r == Err::<T, MatrixError>(
                MatrixError::OutOfBounds,
            ),
    {
        proof {
            use_type_invariant(&*self);
        }
        if row < self.m && col < self.n {
            Ok(self.get(row, col))
        } else {
            Err(MatrixError::OutOfBounds)
        }
    }

    /// Extracts row `row` as a 1-by-`n` matrix; for use by callers that
    /// have already established the index is valid.
    pub(crate) fn row_unchecked(&self, row: usize) -> (x: Matrix<T>)
        requires
            row < self.nrows(),
        ensures
            x.nrows() == 1,
            x.ncols() == self.ncols(),
            forall|j: int|
                0 <= j < self.ncols() ==> #[trigger] x.entry(0, j) == self.entry(row as int, j),
    {
        proof {
            use_type_invariant(&*self);
        }
        let g = (|i2: usize, j2: usize| -> (v: T)
            requires
                row < self.nrows(),
                j2 < self.ncols(),
            ensures
                v == self.entry(row as int, j2 as int),
            {
                self.get(row, j2)
            });
        let x = Matrix::from_fn(1, self.n, g);
        proof {
            assert forall|j: int| 0 <= j < self.ncols() implies #[trigger] x.entry(0, j)
                == self.entry(row as int, j) by {
                assert(call_ensures(g, (0usize, j as usize), x.entry(0, j)));
            }
        }
        x
    }

    /// Returns row `row` of the matrix as a new 1-by-`n` matrix, or an
    /// out-of-bounds error when `row` is not a valid row index.
    pub fn row(&self, row: usize) -> (r: Result<Matrix<T>, MatrixError>)
        ensures
            row < self.nrows() ==> (r matches Ok(x)
                && x.nrows() == 1
                && x.ncols() == self.ncols()
                && forall|j: int| 0 <= j < self.ncols()
                    ==> #[trigger] x.entry(0, j) == self.entry(row as int, j)),
            row >= self.nrows() ==> r == Err::<Matrix<T>, MatrixError>(MatrixError::OutOfBounds),
    {
        proof {
            use_type_invariant(&*self);
        }
        if row < self.m {
            Ok(self.row_unchecked(row))
        } else {
            Err(MatrixError::OutOfBounds)
        }
    }

    /// Extracts column `col` as an `m`-by-1 matrix; for use by callers
    /// that have already established the index is valid.
    pub(crate) fn col_unchecked(&self, col: usize) -> (x: Matrix<T>)
        requires
            col < self.ncols(),
        ensures
            x.nrows() == self.nrows(),
            x.ncols() == 1,
            forall|i: int|
                0 <= i < self.nrows() ==> #[trigger] x.entry(i, 0) == self.entry(i, col as int),
    {
        proof {
            use_type_invariant(&*self);
        }
        let g = (|i2: usize, j2: usize| -> (v: T)
            requires
                col < self.ncols(),
                i2 < self.nrows(),
            ensures
                v == self.entry(i2 as int, col as int),
            {
                self.get(i2, col)
            });
        let x = Matrix::from_fn(self.m, 1, g);
        proof {
            assert forall|i: int| 0 <= i < self.nrows() implies #[trigger] x.entry(i, 0)
                == self.entry(i, col as int) by {
                assert(call_ensures(g, (i as usize, 0usize), x.entry(i, 0)));
            }
        }
        x
    }

    /// Returns column `col` of the matrix as a new `m`-by-1 matrix, or an
    /// out-of-bounds error when `col` is not a valid column index.
    pub fn col(&self, col: usize) -> (r: Result<Matrix<T>, MatrixError>)
        ensures
            col < self.ncols() ==> (r matches Ok(x)
                && x.nrows() == self.nrows()
                && x.ncols() == 1
                && forall|i: int| 0 <= i < self.nrows()
                    ==> #[trigger] x.entry(i, 0) == self.entry(i, col as int)),
            col >= self.ncols() ==> r == Err::<Matrix<T>, MatrixError>(MatrixError::OutOfBounds),
    {
        proof {
            use_type_invariant(&*self);
        }
        if col < self.n {
            Ok(self.col_unchecked(col))
        } else {
            Err(MatrixError::OutOfBounds)
        }
    }

    /// Horizontally concatenates `self` (`m`-by-`n`) with `mat`
    /// (`m`-by-`c`) into an `m`-by-`(n + c)` matrix, `self`'s columns
    /// first, or reports a shape mismatch when the row counts differ.
    pub fn augment(&self, mat: &Matrix<T>) -> (r: Result<Matrix<T>, MatrixError>)
        requires
            self.ncols() + mat.ncols() <= usize::MAX,
        ensures
            self.nrows() == mat.nrows() ==> (r matches Ok(x)
                && x.nrows() == self.nrows()
                && x.ncols() == self.ncols() + mat.ncols()
                && (forall|i: int, j: int|
                    0 <= i < self.nrows() && 0 <= j < self.ncols()
                        ==> #[trigger] x.entry(i, j) == self.entry(i, j))
                && (forall|i: int, j: int|
                    0 <= i < self.nrows() && self.ncols() <= j < self.ncols() + mat.ncols()
                        ==> #[trigger] x.entry(i, j) == mat.entry(i, j - self.ncols()))),
            self.nrows() != mat.nrows() ==> r == Err::<Matrix<T>, MatrixError>(
                MatrixError::ShapeMismatch,
            ),
    {
        proof {
            use_type_invariant(&*self);
            use_type_invariant(&*mat);
        }
        if self.m != mat.m {
            return Err(MatrixError::ShapeMismatch);
        }
        let w = self.n + mat.n;
        let g = (|i2: usize, j2: usize| -> (v: T)
            requires
                self.nrows() == mat.nrows(),
                i2 < self.nrows(),
                j2 < self.ncols() + mat.ncols(),
            ensures
                v == if (j2 as int) < self.ncols() {
                    self.entry(i2 as int, j2 as int)
                } else {
                    mat.entry(i2 as int, j2 - self.ncols())
                },
            {
                if j2 < self.n {
                    self.get(i2, j2)
                } else {
                    mat.get(i2, j2 - self.n)
                }
            });
        let x = Matrix::from_fn(self.m, w, g);
        proof {
            assert forall|i: int, j: int|
                0 <= i < self.nrows() && 0 <= j < self.ncols() implies #[trigger] x.entry(i, j)
                == self.entry(i, j) by {
                assert(call_ensures(g, (i as usize, j as usize), x.entry(i, j)));
            }
            assert forall|i: int, j: int|
                0 <= i < self.nrows() && self.ncols() <= j < self.ncols()
                + mat.ncols() implies #[trigger] x.entry(i, j) == mat.entry(
                i,
                j - self.ncols(),
            ) by {
                assert(call_ensures(g, (i as usize, j as usize), x.entry(i, j)));
            }
        }
        Ok(x)
    }

    /// Returns the transpose: an `n`-by-`m` matrix whose element at
    /// `(i, j)` is `self`'s element at `(j, i)`.
    pub fn transpose(&self) -> (r: Matrix<T>)
        ensures
            r.nrows() == self.ncols(),
            r.ncols() == self.nrows(),
            forall|i: int, j: int|
                r.in_bounds(i, j) ==> #[trigger] r.entry(i, j) == self.entry(j, i),
    {
        proof {
            use_type_invariant(&*self);
        }
        let g = (|i2: usize, j2: usize| -> (v: T)
            requires
                i2 < self.ncols(),
                j2 < self.nrows(),
            ensures
                v == self.entry(j2 as int, i2 as int),
            {
                self.get(j2, i2)
            });
        let r = Matrix::from_fn(self.n, self.m, g);
        proof {
            assert forall|i: int, j: int| r.in_bounds(i, j) implies #[trigger] r.entry(i, j)
                == self.entry(j, i) by {
                assert(call_ensures(g, (i as usize, j as usize), r.entry(i, j)));
            }
        }
        r
    }

    /// Invokes `applier(i, j)` once for every coordinate of the matrix,
    /// rows outer, columns inner.
    pub fn apply<F: Fn(usize, usize)>(&self, applier: F)
        requires
            forall|i: usize, j: usize|
                i < self.nrows() && j < self.ncols() ==> call_requires(applier, (i, j)),
    {
        proof {
            use_type_invariant(&*self);
        }
        let mut i: usize = 0;
        while i < self.m
            invariant
                forall|p: usize, q: usize|
                    p < self.nrows() && q < self.ncols() ==> call_requires(applier, (p, q)),
            decreases self.m - i,
        {
            let mut j: usize = 0;
            while j < self.n
                invariant
                    i < self.nrows(),
                    forall|p: usize, q: usize|
                        p < self.nrows() && q < self.ncols() ==> call_requires(applier, (p, q)),
                decreases self.n - j,
            {
                applier(i, j);
                j += 1;
            }
            i += 1;
        }
    }

    /// Returns a matrix of the same shape whose element at `(i, j)` is
    /// what `mapper` returns for `self`'s element at `(i, j)`.
    pub fn map<F: Fn(T) -> T>(&self, mapper: F) -> (r: Matrix<T>)
        requires
            forall|i: int, j: int|
                self.in_bounds(i, j) ==> call_requires(mapper, (#[trigger] self.entry(i, j),)),
        ensures
            r.nrows() == self.nrows(),
            r.ncols() == self.ncols(),
            forall|i: int, j: int|
                self.in_bounds(i, j) ==> call_ensures(
                    mapper,
                    (self.entry(i, j),),
                    #[trigger] r.entry(i, j),
                ),
    {
        proof {
            use_type_invariant(&*self);
        }
        let mut data: Vec<Vec<T>> = Vec::new();
        let mut i: usize = 0;
        while i < self.m
            invariant
                i <= self.m,
                self.wf(),
                data@.len() == i,
                forall|p: int| 0 <= p < i ==> (#[trigger] data@[p])@.len() == self.n,
                forall|p: int, q: int|
                    0 <= p < i && 0 <= q < self.n ==> call_ensures(
                        mapper,
                        (self.entry(p, q),),
                        #[trigger] data@[p]@[q],
                    ),
                forall|p: int, q: int|
                    self.in_bounds(p, q) ==> call_requires(mapper, (#[trigger] self.entry(p, q),)),
            decreases self.m - i,
        {
            let mut rowv: Vec<T> = Vec::new();
            let mut j: usize = 0;
            while j < self.n
                invariant
                    j <= self.n,
                    i < self.m,
                    self.wf(),
                    rowv@.len() == j,
                    forall|q: int|
                        0 <= q < j ==> call_ensures(
                            mapper,
                            (self.entry(i as int, q),),
                            #[trigger] rowv@[q],
                        ),
                    forall|p: int, q: int|
                        self.in_bounds(p, q) ==> call_requires(
                            mapper,
                            (#[trigger] self.entry(p, q),),
                        ),
                decreases self.n - j,
            {
                let v = mapper(self.get(i, j));
                rowv.push(v);
                j += 1;
            }
            data.push(rowv);
            i += 1;
        }
        Matrix { m: self.m, n: self.n, data }
    }
}

impl<T: Copy + crate::ring::EqElem> Matrix<T> {
    /// Compares two matrices: equal exactly when the shapes coincide and
    /// every pair of corresponding elements is equal.  A shape mismatch
    /// short-circuits to unequal without comparing elements.
    pub fn eq_mat(&self, rhs: &Matrix<T>) -> (r: bool)
        ensures
            r == self.eq_spec(rhs),
    {
        proof {
            use_type_invariant(&*self);
            use_type_invariant(&*rhs);
        }
        if self.m != rhs.m || self.n != rhs.n {
            return false;
        }
        let mut i: usize = 0;
        while i < self.m
            invariant
                i <= self.m,
                self.same_shape(rhs),
                self.wf(),
                rhs.wf(),
                forall|p: int, q: int|
                    0 <= p < i && 0 <= q < self.n ==> #[trigger] self.entry(p, q) == rhs.entry(
                        p,
                        q,
                    ),
            decreases self.m - i,
        {
            let mut j: usize = 0;
            while j < self.n
                invariant
                    j <= self.n,
                    i < self.m,
                    self.same_shape(rhs),
                    self.wf(),
                    rhs.wf(),
                    forall|p: int, q: int|
                        0 <= p < i && 0 <= q < self.n ==> #[trigger] self.entry(p, q)
                            == rhs.entry(p, q),
                    forall|q: int|
                        0 <= q < j ==> #[trigger] self.entry(i as int, q) == rhs.entry(
                            i as int,
                            q,
                        ),
                decreases self.n - j,
            {
                let a = self.get(i, j);
                let b = rhs.get(i, j);
                if !a.eq_elem(&b) {
                    return false;
                }
                j += 1;
            }
            i += 1;
        }
        true
    }
}

} // verus!
