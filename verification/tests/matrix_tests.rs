use matrixrs::Matrix;
use matrixrs::MatrixError;

fn mat(rows: &[&[u64]]) -> Matrix<u64> {
    let copied: Vec<Vec<u64>> = rows.iter().map(|r| r.to_vec()).collect();
    Matrix::from_fn(rows.len(), rows[0].len(), move |i, j| copied[i][j])
}

fn assert_same(a: &Matrix<u64>, b: &Matrix<u64>) {
    assert!(a.eq_mat(b));
}

#[test]
fn from_fn_fills_every_cell_from_the_generator() {
    let m = Matrix::from_fn(2, 3, |i, j| (10 * i + j) as u64);
    for i in 0..2 {
        for j in 0..3 {
            assert_eq!(m.at(i, j), Ok((10 * i + j) as u64));
        }
    }
    assert_eq!(m.size(), (2, 3));
}

#[test]
fn from_fn_zero_dimensions() {
    let m = Matrix::from_fn(0, 5, |_, _| 1u64);
    assert_eq!(m.size(), (0, 5));
    let m = Matrix::from_fn(4, 0, |_, _| 1u64);
    assert_eq!(m.size(), (4, 0));
    assert_eq!(m.sum(), 0);
}

#[test]
fn from_t_fills_with_the_value() {
    let m = Matrix::from_T(2, 3, 7u64);
    for i in 0..2 {
        for j in 0..3 {
            assert_eq!(m.at(i, j), Ok(7));
        }
    }
}

#[test]
fn size_and_sum_of_constant_matrix() {
    let m = Matrix::from_T(2, 3, 5u64);
    assert_eq!(m.size(), (2, 3));
    assert_eq!(m.sum(), 30);
}

#[test]
fn at_out_of_bounds_row_is_an_error() {
    let m = Matrix::from_T(2, 3, 1u64);
    assert_eq!(m.at(2, 0), Err(MatrixError::OutOfBounds));
}

#[test]
fn at_out_of_bounds_col_is_an_error() {
    let m = Matrix::from_T(2, 3, 1u64);
    assert_eq!(m.at(0, 3), Err(MatrixError::OutOfBounds));
}

#[test]
fn row_extracts_a_single_row() {
    let m = mat(&[&[1, 2, 3], &[4, 5, 6]]);
    let r = m.row(1).unwrap();
    assert_eq!(r.size(), (1, 3));
    assert_eq!(r.at(0, 0), Ok(4));
    assert_eq!(r.at(0, 1), Ok(5));
    assert_eq!(r.at(0, 2), Ok(6));
    assert_eq!(m.row(2).unwrap_err(), MatrixError::OutOfBounds);
}

#[test]
fn col_extracts_a_single_column() {
    let m = mat(&[&[1, 2, 3], &[4, 5, 6]]);
    let c = m.col(2).unwrap();
    assert_eq!(c.size(), (2, 1));
    assert_eq!(c.at(0, 0), Ok(3));
    assert_eq!(c.at(1, 0), Ok(6));
    assert_eq!(m.col(3).unwrap_err(), MatrixError::OutOfBounds);
}

#[test]
fn transpose_swaps_shape_and_entries() {
    let m = mat(&[&[1, 2, 3], &[4, 5, 6]]);
    let t = m.transpose();
    assert_eq!(t.size(), (3, 2));
    assert_eq!(t.at(0, 1), Ok(4));
    assert_eq!(t.at(2, 0), Ok(3));
}

#[test]
fn transpose_twice_returns_the_original() {
    let m = mat(&[&[1, 2, 3], &[4, 5, 6]]);
    assert_same(&m.transpose().transpose(), &m);
}

#[test]
fn map_transforms_every_entry() {
    let m = mat(&[&[1, 2], &[3, 4]]);
    let doubled = m.map(|x| 2 * x);
    assert_same(&doubled, &mat(&[&[2, 4], &[6, 8]]));
}

#[test]
fn apply_visits_every_coordinate() {
    let m = Matrix::from_T(3, 4, 0u64);
    let count = std::cell::Cell::new(0u64);
    m.apply(|_, _| count.set(count.get() + 1));
    assert_eq!(count.get(), 12);
}

#[test]
fn add_is_elementwise() {
    let a = mat(&[&[1, 2], &[3, 4]]);
    let b = mat(&[&[10, 20], &[30, 40]]);
    let c = a.add(&b).unwrap();
    assert_same(&c, &mat(&[&[11, 22], &[33, 44]]));
}

#[test]
fn add_commutes() {
    let a = mat(&[&[1, 2, 3], &[4, 5, 6]]);
    let b = mat(&[&[9, 8, 7], &[6, 5, 4]]);
    assert_same(&a.add(&b).unwrap(), &b.add(&a).unwrap());
}

#[test]
fn add_then_subtract_returns_the_original() {
    let a = mat(&[&[1, 2], &[3, 4]]);
    let b = mat(&[&[5, 6], &[7, 8]]);
    let roundtrip = a.add(&b).unwrap().add(&b.neg()).unwrap();
    assert_same(&roundtrip, &a);
    let via_sub = a.add(&b).unwrap().sub(&b).unwrap();
    assert_same(&via_sub, &a);
}

#[test]
fn add_shape_mismatch_is_an_error() {
    let a = Matrix::from_T(2, 2, 1u64);
    let b = Matrix::from_T(2, 3, 1u64);
    assert_eq!(a.add(&b).unwrap_err(), MatrixError::ShapeMismatch);
    assert_eq!(a.sub(&b).unwrap_err(), MatrixError::ShapeMismatch);
}

#[test]
fn mul_of_ones_counts_the_inner_dimension() {
    let a = Matrix::from_T(2, 3, 1u64);
    let b = Matrix::from_T(3, 2, 1u64);
    let c = a.mul(&b).unwrap();
    assert_eq!(c.size(), (2, 2));
    assert_same(&c, &Matrix::from_T(2, 2, 3u64));
}

#[test]
fn mul_concrete_product() {
    let a = mat(&[&[1, 2], &[3, 4]]);
    let b = mat(&[&[5, 6], &[7, 8]]);
    let c = a.mul(&b).unwrap();
    assert_same(&c, &mat(&[&[19, 22], &[43, 50]]));
}

#[test]
fn mul_shape_mismatch_is_an_error() {
    let a = Matrix::from_T(2, 3, 1u64);
    let b = Matrix::from_T(2, 3, 1u64);
    assert_eq!(a.mul(&b).unwrap_err(), MatrixError::ShapeMismatch);
}

#[test]
fn mul_is_associative() {
    let a = mat(&[&[1, 2, 3], &[4, 5, 6]]);
    let b = mat(&[&[7, 8], &[9, 10], &[11, 12]]);
    let c = mat(&[&[13, 14, 15], &[16, 17, 18]]);
    let left = a.mul(&b).unwrap().mul(&c).unwrap();
    let right = a.mul(&b.mul(&c).unwrap()).unwrap();
    assert_same(&left, &right);
}

#[test]
fn identity_multiplication_returns_the_original() {
    let a = mat(&[&[1, 2, 3], &[4, 5, 6]]);
    let left = matrixrs::identity::<u64>(2).mul(&a).unwrap();
    assert_same(&left, &a);
    let right = a.mul(&matrixrs::identity::<u64>(3)).unwrap();
    assert_same(&right, &a);
}

#[test]
fn identity_has_ones_on_the_diagonal() {
    let i3 = matrixrs::identity::<u64>(3);
    assert_eq!(i3.at(1, 1), Ok(1));
    assert_eq!(i3.at(0, 1), Ok(0));
}

#[test]
fn zeros_and_ones_sums() {
    assert_eq!(matrixrs::zeros::<u64>(4, 5).sum(), 0);
    assert_eq!(matrixrs::ones::<u64>(2, 3).sum(), 6);
    assert_eq!(matrixrs::zeros::<u64>(0, 0).sum(), 0);
}

#[test]
fn augment_concatenates_columns() {
    let a = matrixrs::zeros::<u64>(2, 2);
    let b = matrixrs::ones::<u64>(2, 1);
    let c = a.augment(&b).unwrap();
    assert_eq!(c.size(), (2, 3));
    assert_eq!(c.at(0, 2), Ok(1));
    assert_eq!(c.at(1, 2), Ok(1));
    assert_eq!(c.at(0, 0), Ok(0));
    assert_eq!(c.at(1, 1), Ok(0));
}

#[test]
fn augment_row_count_mismatch_is_an_error() {
    let a = Matrix::from_T(2, 2, 1u64);
    let b = Matrix::from_T(3, 1, 1u64);
    assert_eq!(a.augment(&b).unwrap_err(), MatrixError::ShapeMismatch);
}

#[test]
fn augment_columns_come_from_the_right_operand() {
    let a = mat(&[&[1, 2], &[3, 4]]);
    let b = mat(&[&[5], &[6]]);
    let c = a.augment(&b).unwrap();
    for j in 0..2 {
        assert_same(&c.col(j).unwrap(), &a.col(j).unwrap());
    }
    assert_same(&c.col(2).unwrap(), &b.col(0).unwrap());
}

#[test]
fn eq_mat_compares_shapes_and_entries() {
    let a = mat(&[&[1, 2], &[3, 4]]);
    let b = mat(&[&[1, 2], &[3, 4]]);
    let c = mat(&[&[1, 2], &[3, 5]]);
    let d = Matrix::from_T(2, 3, 1u64);
    assert!(a.eq_mat(&b));
    assert!(!a.eq_mat(&c));
    assert!(!a.eq_mat(&d));
}

#[test]
fn sum_wraps_like_the_element_type() {
    let a = Matrix::from_T(1, 2, u64::MAX);
    assert_eq!(a.sum(), u64::MAX.wrapping_add(u64::MAX));
}

#[test]
fn neg_is_the_additive_inverse() {
    let a = mat(&[&[1, 2], &[3, 4]]);
    let z = a.add(&a.neg()).unwrap();
    assert_same(&z, &matrixrs::zeros::<u64>(2, 2));
}

#[test]
fn boolean_matrices_form_a_ring() {
    let a = Matrix::from_fn(2, 2, |i, j| i == j);
    let sum = a.add(&a).unwrap();
    assert!(sum.eq_mat(&matrixrs::zeros::<bool>(2, 2)));
    let product = a.mul(&a).unwrap();
    assert!(product.eq_mat(&matrixrs::identity::<bool>(2)));
    assert_eq!(a.sum(), false);
}
