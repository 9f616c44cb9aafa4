//! Algebraic laws of the matrix operations, stated over the
//! specification-level predicates that the operations' contracts
//! establish, and proved from the ring laws of the element type.

use vstd::prelude::*;
use crate::arith::col_sums;
use crate::arith::fold_upto;
use crate::arith::lemma_sum_fn_ext;
use crate::arith::lemma_sum_fn_mul_left;
use crate::arith::lemma_sum_fn_mul_right;
use crate::arith::lemma_sum_fn_swap;
use crate::arith::mul_term;
use crate::arith::row_sums;
use crate::arith::scaled_left;
use crate::arith::scaled_right;
use crate::arith::slice_col;
use crate::arith::slice_row;
use crate::arith::sum_fn;
use crate::arith::sum_spec;
use crate::matrix::Matrix;
use crate::ring::Ring;

verus! {

/// `r` is the transpose of `a`.
pub open spec fn is_transpose<T>(a: &Matrix<T>, r: &Matrix<T>) -> bool {
    &&& r.nrows() == a.ncols()
    &&& r.ncols() == a.nrows()
    &&& forall|i: int, j: int| r.in_bounds(i, j) ==> #[trigger] r.entry(i, j) == a.entry(j, i)
}

/// `c` is the element-wise sum of `a` and `b`.
pub open spec fn is_sum<T: Ring>(a: &Matrix<T>, b: &Matrix<T>, c: &Matrix<T>) -> bool {
    &&& a.same_shape(b)
    &&& c.nrows() == a.nrows()
    &&& c.ncols() == a.ncols()
    &&& forall|i: int, j: int|
        c.in_bounds(i, j) ==> #[trigger] c.entry(i, j) == a.entry(i, j).add_spec(b.entry(i, j))
}

/// `c` is the element-wise negation of `a`.
pub open spec fn is_neg<T: Ring>(a: &Matrix<T>, c: &Matrix<T>) -> bool {
    &&& c.nrows() == a.nrows()
    &&& c.ncols() == a.ncols()
    &&& forall|i: int, j: int|
        c.in_bounds(i, j) ==> #[trigger] c.entry(i, j) == a.entry(i, j).neg_spec()
}

/// `c` is the matrix product of `a` and `b`.
pub open spec fn is_product<T: Ring>(a: &Matrix<T>, b: &Matrix<T>, c: &Matrix<T>) -> bool {
    &&& a.ncols() == b.nrows()
    &&& c.nrows() == a.nrows()
    &&& c.ncols() == b.ncols()
    &&& forall|i: int, j: int|
        c.in_bounds(i, j) ==> #[trigger] c.entry(i, j) == crate::arith::mul_entry(a, b, i, j)
}

/// `a` is the `k`-by-`k` identity matrix.
pub open spec fn is_identity_mat<T: Ring>(a: &Matrix<T>, k: int) -> bool {
    &&& a.nrows() == k
    &&& a.ncols() == k
    &&& forall|i: int, j: int|
        a.in_bounds(i, j) ==> #[trigger] a.entry(i, j) == (if i == j {
            T::one_spec()
        } else {
            T::zero_spec()
        })
}

/// Every element of `a` equals `v`.
pub open spec fn is_constant<T>(a: &Matrix<T>, v: T) -> bool {
    forall|i: int, j: int| a.in_bounds(i, j) ==> #[trigger] a.entry(i, j) == v
}

/// `c` is `a` horizontally augmented with `b`, `a`'s columns first.
pub open spec fn is_augment<T>(a: &Matrix<T>, b: &Matrix<T>, c: &Matrix<T>) -> bool {
    &&& a.nrows() == b.nrows()
    &&& c.nrows() == a.nrows()
    &&& c.ncols() == a.ncols() + b.ncols()
    &&& forall|i: int, j: int|
        0 <= i < a.nrows() && 0 <= j < a.ncols() ==> #[trigger] c.entry(i, j) == a.entry(i, j)
    &&& forall|i: int, j: int|
        0 <= i < a.nrows() && a.ncols() <= j < a.ncols() + b.ncols() ==> #[trigger] c.entry(i, j)
            == b.entry(i, j - a.ncols())
}

/// `x` is column `j` of `src`, as a single-column matrix.
pub open spec fn is_col_of<T>(src: &Matrix<T>, j: int, x: &Matrix<T>) -> bool {
    &&& x.nrows() == src.nrows()
    &&& x.ncols() == 1
    &&& forall|i: int|
        0 <= i < src.nrows() ==> #[trigger] x.entry(i, 0) == src.entry(i, j)
}

/// `k` ones summed together, starting from zero: the ring's
/// representation of the natural number `k`.
pub open spec fn count_spec<T: Ring>(k: nat) -> T
    decreases k,
{
    if k == 0 {
        T::zero_spec()
    } else {
        count_spec::<T>((k - 1) as nat).add_spec(T::one_spec())
    }
}

/// Transposing twice returns the original matrix, in shape and in every
/// element.
pub proof fn lemma_transpose_transpose<T>(a: &Matrix<T>, b: &Matrix<T>, c: &Matrix<T>)
    requires
        is_transpose(a, b),
        is_transpose(b, c),
    ensures
        c.eq_spec(a),
{
}

/// Matrix addition is commutative: adding `a` to `b` and `b` to `a`
/// gives the same matrix.
pub proof fn lemma_add_comm_matrices<T: Ring>(
    a: &Matrix<T>,
    b: &Matrix<T>,
    c: &Matrix<T>,
    d: &Matrix<T>,
)
    requires
        is_sum(a, b, c),
        is_sum(b, a, d),
    ensures
        c.eq_spec(d),
{
    assert forall|i: int, j: int| c.in_bounds(i, j) implies #[trigger] c.entry(i, j) == d.entry(
        i,
        j,
    ) by {
        T::law_add_comm(a.entry(i, j), b.entry(i, j));
    }
}

/// Adding a matrix and then its negation returns the original:
/// `(a + b) + (-b) == a`.
pub proof fn lemma_add_neg_cancel<T: Ring>(
    a: &Matrix<T>,
    b: &Matrix<T>,
    ab: &Matrix<T>,
    nb: &Matrix<T>,
    r: &Matrix<T>,
)
    requires
        is_sum(a, b, ab),
        is_neg(b, nb),
        is_sum(ab, nb, r),
    ensures
        r.eq_spec(a),
{
    assert forall|i: int, j: int| r.in_bounds(i, j) implies #[trigger] r.entry(i, j) == a.entry(
        i,
        j,
    ) by {
        let x = a.entry(i, j);
        let y = b.entry(i, j);
        T::law_add_assoc(x, y, y.neg_spec());
        T::law_add_neg(y);
        T::law_add_zero(x);
    }
}

/// A sum whose terms are all zero except the one at index `i`, which is
/// `v`, folds to `v` once the range passes `i`, and to zero before.
proof fn lemma_sum_fn_unit<T: Ring>(f: spec_fn(int) -> T, i: int, v: T, t: int)
    requires
        0 <= i,
        forall|l: int|
            0 <= l < t ==> #[trigger] f(l) == (if l == i {
                v
            } else {
                T::zero_spec()
            }),
    ensures
        sum_fn(f, t) == (if t > i {
            v
        } else {
            T::zero_spec()
        }),
    decreases t,
{
    if t > 0 {
        lemma_sum_fn_unit(f, i, v, t - 1);
        if t - 1 == i {
            T::law_add_comm(T::zero_spec(), v);
            T::law_add_zero(v);
        } else {
            T::law_add_zero(sum_fn(f, t - 1));
        }
    }
}

/// Multiplying by the identity matrix on the left returns the original:
/// `identity(k) * a == a` for `a` with `k` rows.
pub proof fn lemma_identity_mul_left<T: Ring>(idm: &Matrix<T>, a: &Matrix<T>, r: &Matrix<T>)
    requires
        is_identity_mat(idm, a.nrows() as int),
        is_product(idm, a, r),
    ensures
        r.eq_spec(a),
{
    assert forall|i: int, j: int| r.in_bounds(i, j) implies #[trigger] r.entry(i, j) == a.entry(
        i,
        j,
    ) by {
        let f = mul_term(idm, a, i, j);
        assert forall|l: int| 0 <= l < idm.ncols() as int implies #[trigger] f(l) == (if l == i {
            a.entry(i, j)
        } else {
            T::zero_spec()
        }) by {
            if l == i {
                T::law_mul_one(a.entry(i, j));
            } else {
                T::law_mul_zero(a.entry(l, j));
            }
        }
        lemma_sum_fn_unit(f, i, a.entry(i, j), idm.ncols() as int);
    }
}

/// Multiplying by the identity matrix on the right returns the
/// original: `a * identity(k) == a` for `a` with `k` columns.
pub proof fn lemma_identity_mul_right<T: Ring>(a: &Matrix<T>, idm: &Matrix<T>, r: &Matrix<T>)
    requires
        is_identity_mat(idm, a.ncols() as int),
        is_product(a, idm, r),
    ensures
        r.eq_spec(a),
{
    assert forall|i: int, j: int| r.in_bounds(i, j) implies #[trigger] r.entry(i, j) == a.entry(
        i,
        j,
    ) by {
        let f = mul_term(a, idm, i, j);
        assert forall|l: int| 0 <= l < a.ncols() implies #[trigger] f(l) == (if l == j {
            a.entry(i, j)
        } else {
            T::zero_spec()
        }) by {
            if l == j {
                T::law_mul_one(a.entry(i, j));
            } else {
                T::law_mul_zero(a.entry(i, l));
            }
        }
        lemma_sum_fn_unit(f, j, a.entry(i, j), a.ncols() as int);
    }
}

/// Matrix multiplication is associative: `(a * b) * c == a * (b * c)`.
pub proof fn lemma_mul_assoc_matrices<T: Ring>(
    a: &Matrix<T>,
    b: &Matrix<T>,
    c: &Matrix<T>,
    ab: &Matrix<T>,
    bc: &Matrix<T>,
    ab_c: &Matrix<T>,
    a_bc: &Matrix<T>,
)
    requires
        is_product(a, b, ab),
        is_product(b, c, bc),
        is_product(ab, c, ab_c),
        is_product(a, bc, a_bc),
    ensures
        ab_c.eq_spec(a_bc),
{
    let n = a.ncols() as int;
    let p = b.ncols() as int;
    assert forall|i: int, j: int| ab_c.in_bounds(i, j) implies #[trigger] ab_c.entry(i, j)
        == a_bc.entry(i, j) by {
        let h = (|l: int, s: int| a.entry(i, s).mul_spec(
            b.entry(s, l).mul_spec(c.entry(l, j)),
        ));
        assert forall|l: int| 0 <= l < p implies #[trigger] mul_term(ab, c, i, j)(l) == row_sums(
            h,
            n,
        )(l) by {
            assert(ab.entry(i, l) == sum_fn(mul_term(a, b, i, l), n));
            lemma_sum_fn_mul_right(mul_term(a, b, i, l), c.entry(l, j), n);
            assert forall|s: int| 0 <= s < n implies #[trigger] scaled_right(
                mul_term(a, b, i, l),
                c.entry(l, j),
            )(s) == slice_row(h, l)(s) by {
                T::law_mul_assoc(a.entry(i, s), b.entry(s, l), c.entry(l, j));
            }
            lemma_sum_fn_ext(scaled_right(mul_term(a, b, i, l), c.entry(l, j)), slice_row(h, l), n);
        }
        lemma_sum_fn_ext(mul_term(ab, c, i, j), row_sums(h, n), p);
        lemma_sum_fn_swap(h, p, n);
        assert forall|s: int| 0 <= s < n implies #[trigger] col_sums(h, p)(s) == mul_term(
            a,
            bc,
            i,
            j,
        )(s) by {
            lemma_sum_fn_mul_left(mul_term(b, c, s, j), a.entry(i, s), p);
            assert forall|l: int| 0 <= l < p implies #[trigger] scaled_left(
                mul_term(b, c, s, j),
                a.entry(i, s),
            )(l) == slice_col(h, s)(l) by {}
            lemma_sum_fn_ext(scaled_left(mul_term(b, c, s, j), a.entry(i, s)), slice_col(h, s), p);
            assert(bc.entry(s, j) == sum_fn(mul_term(b, c, s, j), p));
        }
        lemma_sum_fn_ext(col_sums(h, p), mul_term(a, bc, i, j), n);
        assert(ab_c.entry(i, j) == sum_fn(mul_term(ab, c, i, j), p));
        assert(a_bc.entry(i, j) == sum_fn(mul_term(a, bc, i, j), n));
    }
}

/// The running row-major total of an all-zero matrix is zero.
proof fn lemma_fold_upto_zeros<T: Ring>(a: &Matrix<T>, i: int, j: int)
    requires
        is_constant(a, T::zero_spec()),
        i <= a.nrows(),
        0 <= j <= a.ncols(),
        j > 0 ==> 0 <= i < a.nrows(),
    ensures
        fold_upto(a, i, j) == T::zero_spec(),
    decreases i, j,
{
    if j > 0 {
        lemma_fold_upto_zeros(a, i, j - 1);
        T::law_add_zero(T::zero_spec());
    } else if i > 0 {
        lemma_fold_upto_zeros(a, i - 1, a.ncols() as int);
    }
}

/// The sum of an all-zero matrix is zero.
pub proof fn lemma_zeros_sum<T: Ring>(a: &Matrix<T>)
    requires
        is_constant(a, T::zero_spec()),
    ensures
        sum_spec(a) == T::zero_spec(),
{
    lemma_fold_upto_zeros(a, a.nrows() as int, 0);
}

/// The running row-major total of an all-one matrix counts the cells
/// visited so far.
proof fn lemma_fold_upto_ones<T: Ring>(a: &Matrix<T>, i: int, j: int)
    requires
        is_constant(a, T::one_spec()),
        0 <= i <= a.nrows(),
        0 <= j <= a.ncols(),
        j > 0 ==> i < a.nrows(),
    ensures
        fold_upto(a, i, j) == count_spec::<T>((i * a.ncols() + j) as nat),
    decreases i, j,
{
    assert(i * a.ncols() >= 0) by (nonlinear_arith)
        requires
            i >= 0,
            a.ncols() >= 0,
    ;
    if j > 0 {
        lemma_fold_upto_ones(a, i, j - 1);
        assert(a.entry(i, j - 1) == T::one_spec());
        assert(count_spec::<T>((i * a.ncols() + j) as nat) == count_spec::<T>(
            (i * a.ncols() + j - 1) as nat,
        ).add_spec(T::one_spec()));
    } else if i > 0 {
        lemma_fold_upto_ones(a, i - 1, a.ncols() as int);
        assert((i - 1) * a.ncols() + a.ncols() == i * a.ncols()) by (nonlinear_arith);
    } else {
        assert(i * a.ncols() + j == 0) by (nonlinear_arith)
            requires
                i == 0,
                j == 0,
        ;
    }
}

/// The sum of an all-one matrix is the ring's representation of the
/// number of cells, `m * n`.
pub proof fn lemma_ones_sum<T: Ring>(a: &Matrix<T>)
    requires
        is_constant(a, T::one_spec()),
    ensures
        sum_spec(a) == count_spec::<T>((a.nrows() * a.ncols()) as nat),
{
    lemma_fold_upto_ones(a, a.nrows() as int, 0);
}

/// A column taken from the left block of an augmented matrix equals the
/// same column of the left operand.
pub proof fn lemma_augment_col_left<T>(
    a: &Matrix<T>,
    b: &Matrix<T>,
    c: &Matrix<T>,
    j: int,
    x: &Matrix<T>,
    y: &Matrix<T>,
)
    requires
        is_augment(a, b, c),
        0 <= j < a.ncols(),
        is_col_of(c, j, x),
        is_col_of(a, j, y),
    ensures
        x.eq_spec(y),
{
}

/// A column taken from the right block of an augmented matrix equals
/// the corresponding column of the right operand.
pub proof fn lemma_augment_col_right<T>(
    a: &Matrix<T>,
    b: &Matrix<T>,
    c: &Matrix<T>,
    j: int,
    x: &Matrix<T>,
    y: &Matrix<T>,
)
    requires
        is_augment(a, b, c),
        a.ncols() <= j < a.ncols() + b.ncols(),
        is_col_of(c, j, x),
        is_col_of(b, j - a.ncols(), y),
    ensures
        x.eq_spec(y),
{
}

} // verus!
