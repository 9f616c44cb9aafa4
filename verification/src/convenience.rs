//! Convenience constructors for common matrices over a ring.

use vstd::prelude::*;
use crate::matrix::Matrix;
use crate::ring::Ring;

verus! {

/// An `m`-by-`n` matrix with every element zero.
pub fn zeros<T: Ring>(m: usize, n: usize) -> (r: Matrix<T>)
    ensures
        r.nrows() == m,
        r.ncols() == n,
        forall|i: int, j: int| r.in_bounds(i, j) ==> #[trigger] r.entry(i, j) == T::zero_spec(),
{
    Matrix::from_T(m, n, T::zero())
}

/// An `m`-by-`n` matrix with every element one.
pub fn ones<T: Ring>(m: usize, n: usize) -> (r: Matrix<T>)
    ensures
        r.nrows() == m,
        r.ncols() == n,
        forall|i: int, j: int| r.in_bounds(i, j) ==> #[trigger] r.entry(i, j) == T::one_spec(),
{
    Matrix::from_T(m, n, T::one())
}

/// The `dim`-by-`dim` identity matrix: one on the diagonal, zero
/// elsewhere.
pub fn identity<T: Ring>(dim: usize) -> (r: Matrix<T>)
    ensures
        r.nrows() == dim,
        r.ncols() == dim,
        forall|i: int, j: int|
            r.in_bounds(i, j) ==> #[trigger] r.entry(i, j) == (if i == j {
                T::one_spec()
            } else {
                T::zero_spec()
            }),
{
    let g = (|i: usize, j: usize| -> (v: T)
        ensures
            v == (if i == j {
                T::one_spec()
            } else {
                T::zero_spec()
            }),
        {
            if i == j {
                T::one()
            } else {
                T::zero()
            }
        });
    let r = Matrix::from_fn(dim, dim, g);
    proof {
        assert forall|i: int, j: int| r.in_bounds(i, j) implies #[trigger] r.entry(i, j) == (
        if i == j {
            T::one_spec()
        } else {
            T::zero_spec()
        }) by {
            assert(call_ensures(g, (i as usize, j as usize), r.entry(i, j)));
        }
    }
    r
}

} // verus!
