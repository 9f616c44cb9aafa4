//! Matrix arithmetic: summation, addition, negation, subtraction and
//! multiplication, for matrices over a [`Ring`] element type.

use vstd::prelude::*;
use crate::matrix::Matrix;
use crate::matrix::MatrixError;
use crate::ring::Ring;

verus! {

/// The left fold of `f(0), f(1), ..., f(k - 1)` onto zero:
/// `((zero + f(0)) + f(1)) + ... + f(k - 1)`.
pub open spec fn sum_fn<T: Ring>(f: spec_fn(int) -> T, k: int) -> T
    decreases k,
{
    if k <= 0 {
        T::zero_spec()
    } else {
        sum_fn(f, k - 1).add_spec(f(k - 1))
    }
}

/// The running row-major total of a matrix: every element of the rows
/// before row `i`, then the first `j` elements of row `i`, folded onto
/// zero in visiting order.
pub open spec fn fold_upto<T: Ring>(a: &Matrix<T>, i: int, j: int) -> T
    decreases i, j,
{
    if j > 0 {
        fold_upto(a, i, j - 1).add_spec(a.entry(i, j - 1))
    } else if i > 0 {
        fold_upto(a, i - 1, a.ncols() as int)
    } else {
        T::zero_spec()
    }
}

/// The sum of every element of the matrix, accumulated in row-major
/// order starting from zero.
pub open spec fn sum_spec<T: Ring>(a: &Matrix<T>) -> T {
    fold_upto(a, a.nrows() as int, 0)
}

/// The term at position `l` of the dot product of `a`'s row 0 with
/// `b`'s column 0.
pub open spec fn dot_term<T: Ring>(a: &Matrix<T>, b: &Matrix<T>) -> spec_fn(int) -> T {
    |l: int| a.entry(0, l).mul_spec(b.entry(l, 0))
}

/// The dot product of `a`'s row 0 with `b`'s column 0.
pub open spec fn dot_spec<T: Ring>(a: &Matrix<T>, b: &Matrix<T>) -> T {
    sum_fn(dot_term(a, b), a.ncols() as int)
}

/// The term at position `l` of the inner-product sum that defines
/// element `(i, j)` of the matrix product of `a` and `b`.
pub open spec fn mul_term<T: Ring>(a: &Matrix<T>, b: &Matrix<T>, i: int, j: int) -> spec_fn(
    int,
) -> T {
    |l: int| a.entry(i, l).mul_spec(b.entry(l, j))
}

/// Element `(i, j)` of the matrix product of `a` and `b`: the dot
/// product of `a`'s row `i` with `b`'s column `j`.
pub open spec fn mul_entry<T: Ring>(a: &Matrix<T>, b: &Matrix<T>, i: int, j: int) -> T {
    sum_fn(mul_term(a, b, i, j), a.ncols() as int)
}

/// Folding two functions that agree on `[0, k)` gives the same sum.
pub proof fn lemma_sum_fn_ext<T: Ring>(f: spec_fn(int) -> T, g: spec_fn(int) -> T, k: int)
    requires
        forall|l: int| 0 <= l < k ==> #[trigger] f(l) == g(l),
    ensures
        sum_fn(f, k) == sum_fn(g, k),
    decreases k,
{
    if k > 0 {
        lemma_sum_fn_ext(f, g, k - 1);
    }
}

/// A function that is zero on `[0, k)` folds to zero.
pub proof fn lemma_sum_fn_zero<T: Ring>(f: spec_fn(int) -> T, k: int)
    requires
        forall|l: int| 0 <= l < k ==> #[trigger] f(l) == T::zero_spec(),
    ensures
        sum_fn(f, k) == T::zero_spec(),
    decreases k,
{
    if k > 0 {
        lemma_sum_fn_zero(f, k - 1);
        T::law_add_zero(T::zero_spec());
    }
}

/// The function whose value at `l` is `f(l) + g(l)`.
pub open spec fn fn_plus<T: Ring>(f: spec_fn(int) -> T, g: spec_fn(int) -> T) -> spec_fn(
    int,
) -> T {
    |l: int| f(l).add_spec(g(l))
}

/// The function whose value at `l` is `f(l) * c`.
pub open spec fn scaled_right<T: Ring>(f: spec_fn(int) -> T, c: T) -> spec_fn(int) -> T {
    |l: int| f(l).mul_spec(c)
}

/// The function whose value at `l` is `c * f(l)`.
pub open spec fn scaled_left<T: Ring>(f: spec_fn(int) -> T, c: T) -> spec_fn(int) -> T {
    |l: int| c.mul_spec(f(l))
}

/// Row `l` of a two-argument function: `s` maps to `h(l, s)`.
pub open spec fn slice_row<T: Ring>(h: spec_fn(int, int) -> T, l: int) -> spec_fn(int) -> T {
    |s: int| h(l, s)
}

/// Column `s` of a two-argument function: `l` maps to `h(l, s)`.
pub open spec fn slice_col<T: Ring>(h: spec_fn(int, int) -> T, s: int) -> spec_fn(int) -> T {
    |l: int| h(l, s)
}

/// The function whose value at `l` is the sum of row `l` of `h` up to `k2`.
pub open spec fn row_sums<T: Ring>(h: spec_fn(int, int) -> T, k2: int) -> spec_fn(int) -> T {
    |l: int| sum_fn(slice_row(h, l), k2)
}

/// The function whose value at `s` is the sum of column `s` of `h` up to `k1`.
pub open spec fn col_sums<T: Ring>(h: spec_fn(int, int) -> T, k1: int) -> spec_fn(int) -> T {
    |s: int| sum_fn(slice_col(h, s), k1)
}

/// Rearranging four summands: `(a + b) + (c + d) == (a + c) + (b + d)`.
proof fn lemma_add_exchange<T: Ring>(a: T, b: T, c: T, d: T)
    ensures
        a.add_spec(b).add_spec(c.add_spec(d)) == a.add_spec(c).add_spec(b.add_spec(d)),
{
    T::law_add_assoc(a.add_spec(b), c, d);
    T::law_add_assoc(a, b, c);
    T::law_add_comm(b, c);
    T::law_add_assoc(a, c, b);
    T::law_add_assoc(a.add_spec(c), b, d);
}

/// Sums distribute over pointwise addition:
/// `sum(f) + sum(g) == sum(l -> f(l) + g(l))`.
pub proof fn lemma_sum_fn_plus<T: Ring>(f: spec_fn(int) -> T, g: spec_fn(int) -> T, k: int)
    ensures
        sum_fn(f, k).add_spec(sum_fn(g, k)) == sum_fn(fn_plus(f, g), k),
    decreases k,
{
    if k <= 0 {
        T::law_add_zero(T::zero_spec());
    } else {
        lemma_sum_fn_plus(f, g, k - 1);
        lemma_add_exchange(sum_fn(f, k - 1), f(k - 1), sum_fn(g, k - 1), g(k - 1));
    }
}

/// A constant multiplier on the right moves out of a sum:
/// `sum(f) * c == sum(l -> f(l) * c)`.
pub proof fn lemma_sum_fn_mul_right<T: Ring>(f: spec_fn(int) -> T, c: T, k: int)
    ensures
        sum_fn(f, k).mul_spec(c) == sum_fn(scaled_right(f, c), k),
    decreases k,
{
    if k <= 0 {
        T::law_mul_zero(c);
    } else {
        lemma_sum_fn_mul_right(f, c, k - 1);
        T::law_mul_distrib(c, sum_fn(f, k - 1), f(k - 1));
    }
}

/// A constant multiplier on the left moves into a sum:
/// `c * sum(f) == sum(l -> c * f(l))`.
pub proof fn lemma_sum_fn_mul_left<T: Ring>(f: spec_fn(int) -> T, c: T, k: int)
    ensures
        c.mul_spec(sum_fn(f, k)) == sum_fn(scaled_left(f, c), k),
    decreases k,
{
    if k <= 0 {
        T::law_mul_zero(c);
    } else {
        lemma_sum_fn_mul_left(f, c, k - 1);
        T::law_mul_distrib(c, sum_fn(f, k - 1), f(k - 1));
    }
}

/// Interchanging a finite double sum:
/// summing the rows of `h` and then adding those row totals gives the
/// same result as summing the columns first.
pub proof fn lemma_sum_fn_swap<T: Ring>(h: spec_fn(int, int) -> T, k1: int, k2: int)
    ensures
        sum_fn(row_sums(h, k2), k1) == sum_fn(col_sums(h, k1), k2),
    decreases k1,
{
    if k1 <= 0 {
        assert forall|s: int| 0 <= s < k2 implies #[trigger] col_sums::<T>(h, k1)(s)
            == T::zero_spec() by {
            assert(col_sums(h, k1)(s) == sum_fn(slice_col(h, s), k1));
        }
        lemma_sum_fn_zero(col_sums(h, k1), k2);
    } else {
        lemma_sum_fn_swap(h, k1 - 1, k2);
        lemma_sum_fn_plus(col_sums(h, k1 - 1), slice_row(h, k1 - 1), k2);
        assert forall|s: int| 0 <= s < k2 implies #[trigger] fn_plus(
            col_sums(h, k1 - 1),
            slice_row(h, k1 - 1),
        )(s) == col_sums::<T>(h, k1)(s) by {
            assert(fn_plus(col_sums(h, k1 - 1), slice_row(h, k1 - 1))(s) == sum_fn(
                slice_col(h, s),
                k1 - 1,
            ).add_spec(h(k1 - 1, s)));
            assert(slice_col(h, s)(k1 - 1) == h(k1 - 1, s));
            assert(col_sums(h, k1)(s) == sum_fn(slice_col(h, s), k1));
        }
        lemma_sum_fn_ext(fn_plus(col_sums(h, k1 - 1), slice_row(h, k1 - 1)), col_sums(h, k1), k2);
        assert(sum_fn(row_sums(h, k2), k1) == sum_fn(row_sums(h, k2), k1 - 1).add_spec(
            row_sums(h, k2)(k1 - 1),
        ));
        assert(row_sums(h, k2)(k1 - 1) == sum_fn(slice_row(h, k1 - 1), k2));
    }
}

impl<T: Ring> Matrix<T> {
    /// The sum of all elements, starting from zero and accumulated in
    /// row-major order.
    pub fn sum(&self) -> (r: T)
        ensures
            r == sum_spec(self),
    {
        let (m, n) = self.size();
        let mut acc: T = T::zero();
        let mut i: usize = 0;
        while i < m
            invariant
                m == self.nrows(),
                n == self.ncols(),
                i <= m,
                acc == fold_upto(self, i as int, 0),
            decreases m - i,
        {
            let mut j: usize = 0;
            while j < n
                invariant
                    m == self.nrows(),
                    n == self.ncols(),
                    i < m,
                    j <= n,
                    acc == fold_upto(self, i as int, j as int),
                decreases n - j,
            {
                acc = acc.plus(self.get(i, j));
                j += 1;
            }
            proof {
                assert(fold_upto(self, i + 1 as int, 0) == fold_upto(self, i as int, n as int));
            }
            i += 1;
        }
        acc
    }

    /// The dot product of `self`'s row 0 with `other`'s column 0; for
    /// use on a single row and a single column of matching length.
    fn dot(&self, other: &Matrix<T>) -> (r: T)
        requires
            self.nrows() >= 1,
            other.ncols() >= 1,
            other.nrows() == self.ncols(),
        ensures
            r == dot_spec(self, other),
    {
        let (_, n) = self.size();
        let mut acc: T = T::zero();
        let mut l: usize = 0;
        while l < n
            invariant
                n == self.ncols(),
                self.nrows() >= 1,
                other.ncols() >= 1,
                other.nrows() == self.ncols(),
                l <= n,
                acc == sum_fn(dot_term(self, other), l as int),
            decreases n - l,
        {
            acc = acc.plus(self.get(0, l).times(other.get(l, 0)));
            l += 1;
        }
        acc
    }

    /// Element-wise addition, defined when the shapes coincide;
    /// otherwise a shape mismatch is reported.
    pub fn add(&self, rhs: &Matrix<T>) -> (r: Result<Matrix<T>, MatrixError>)
        ensures
            self.same_shape(rhs) ==> (r matches Ok(x)
                && x.nrows() == self.nrows()
                && x.ncols() == self.ncols()
                && forall|i: int, j: int| x.in_bounds(i, j)
                    ==> #[trigger] x.entry(i, j) == self.entry(i, j).add_spec(rhs.entry(i, j))),
            !self.same_shape(rhs) ==> r == Err::<Matrix<T>, MatrixError>(
                MatrixError::ShapeMismatch,
            ),
    {
        let (m, n) = self.size();
        let (rm, rn) = rhs.size();
        if m != rm || n != rn {
            return Err(MatrixError::ShapeMismatch);
        }
        let g = (|i2: usize, j2: usize| -> (v: T)
            requires
                self.same_shape(rhs),
                i2 < self.nrows(),
                j2 < self.ncols(),
            ensures
                v == self.entry(i2 as int, j2 as int).add_spec(rhs.entry(i2 as int, j2 as int)),
            {
                self.get(i2, j2).plus(rhs.get(i2, j2))
            });
        let x = Matrix::from_fn(m, n, g);
        proof {
            assert forall|i: int, j: int| x.in_bounds(i, j) implies #[trigger] x.entry(i, j)
                == self.entry(i, j).add_spec(rhs.entry(i, j)) by {
                assert(call_ensures(g, (i as usize, j as usize), x.entry(i, j)));
            }
        }
        Ok(x)
    }

    /// Element-wise negation.
    pub fn neg(&self) -> (r: Matrix<T>)
        ensures
            r.nrows() == self.nrows(),
            r.ncols() == self.ncols(),
            forall|i: int, j: int|
                r.in_bounds(i, j) ==> #[trigger] r.entry(i, j) == self.entry(i, j).neg_spec(),
    {
        let f = (|x: T| -> (v: T)
            ensures
                v == x.neg_spec(),
            {
                x.negate()
            });
        let r = self.map(f);
        proof {
            assert forall|i: int, j: int| r.in_bounds(i, j) implies #[trigger] r.entry(i, j)
                == self.entry(i, j).neg_spec() by {
                assert(call_ensures(f, (self.entry(i, j),), r.entry(i, j)));
            }
        }
        r
    }

    /// Element-wise subtraction, as addition of the negation; defined
    /// when the shapes coincide, otherwise a shape mismatch is reported.
    pub fn sub(&self, rhs: &Matrix<T>) -> (r: Result<Matrix<T>, MatrixError>)
        ensures
            self.same_shape(rhs) ==> (r matches Ok(x)
                && x.nrows() == self.nrows()
                && x.ncols() == self.ncols()
                && forall|i: int, j: int| x.in_bounds(i, j)
                    ==> #[trigger] x.entry(i, j) == self.entry(i, j).add_spec(
                    rhs.entry(i, j).neg_spec(),
                )),
            !self.same_shape(rhs) ==> r == Err::<Matrix<T>, MatrixError>(
                MatrixError::ShapeMismatch,
            ),
    {
        self.add(&rhs.neg())
    }

    /// The matrix product: defined when `self`'s column count equals
    /// `rhs`'s row count, with element `(i, j)` the dot product of
    /// `self`'s row `i` and `rhs`'s column `j`; otherwise a shape
    /// mismatch is reported.
    pub fn mul(&self, rhs: &Matrix<T>) -> (r: Result<Matrix<T>, MatrixError>)
        ensures
            self.ncols() == rhs.nrows() ==> (r matches Ok(x)
                && x.nrows() == self.nrows()
                && x.ncols() == rhs.ncols()
                && forall|i: int, j: int| x.in_bounds(i, j)
                    ==> #[trigger] x.entry(i, j) == mul_entry(self, rhs, i, j)),
            self.ncols() != rhs.nrows() ==> r == Err::<Matrix<T>, MatrixError>(
                MatrixError::ShapeMismatch,
            ),
    {
        let (m, n) = self.size();
        let (rm, rn) = rhs.size();
        if n != rm {
            return Err(MatrixError::ShapeMismatch);
        }
        let g = (|i2: usize, j2: usize| -> (v: T)
            requires
                self.ncols() == rhs.nrows(),
                i2 < self.nrows(),
                j2 < rhs.ncols(),
            ensures
                v == mul_entry(self, rhs, i2 as int, j2 as int),
            {
                let rowm = self.row_unchecked(i2);
                let colm = rhs.col_unchecked(j2);
                let v = rowm.dot(&colm);
                proof {
                    assert forall|l: int| 0 <= l < rowm.ncols() implies #[trigger] dot_term(
                        &rowm,
                        &colm,
                    )(l) == mul_term(self, rhs, i2 as int, j2 as int)(l) by {
                        assert(rowm.entry(0, l) == self.entry(i2 as int, l));
                        assert(colm.entry(l, 0) == rhs.entry(l, j2 as int));
                    }
                    lemma_sum_fn_ext(
                        dot_term(&rowm, &colm),
                        mul_term(self, rhs, i2 as int, j2 as int),
                        rowm.ncols() as int,
                    );
                }
                v
            });
        let x = Matrix::from_fn(m, rn, g);
        proof {
            assert forall|i: int, j: int| x.in_bounds(i, j) implies #[trigger] x.entry(i, j)
                == mul_entry(self, rhs, i, j) by {
                assert(call_ensures(g, (i as usize, j as usize), x.entry(i, j)));
            }
        }
        Ok(x)
    }
}

} // verus!
