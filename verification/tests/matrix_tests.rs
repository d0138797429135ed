use matrixkit::matrix::Matrix;

fn mat(rows: Vec<Vec<i64>>) -> Matrix<i64> {
    Matrix::from_vec(&rows).unwrap()
}

#[test]
fn from_vec_accepts_rectangular_input() {
    let m = mat(vec![vec![1, 2, 3], vec![4, 5, 6]]);
    assert_eq!(m.dimensions, (2, 3));
    assert_eq!(m.values, vec![vec![1, 2, 3], vec![4, 5, 6]]);
}

#[test]
fn from_vec_rejects_ragged_input() {
    let r = Matrix::<i64>::from_vec(&vec![vec![1, 2], vec![3]]);
    assert_eq!(r.err().unwrap(), "The vector has inconsistent dimensions");
}

#[test]
fn valid_size_reports_row_consistency() {
    assert!(matrixkit::matrix::valid_size(&vec![vec![1, 2], vec![3, 4]]));
    assert!(!matrixkit::matrix::valid_size(&vec![vec![1, 2], vec![3]]));
}

#[test]
fn new_fills_with_zeros() {
    let m = Matrix::<i64>::new(2, 3);
    assert_eq!(m.dimensions, (2, 3));
    assert_eq!(m.values, vec![vec![0, 0, 0], vec![0, 0, 0]]);
}

#[test]
fn transpose_concrete() {
    let a = mat(vec![vec![1, 2], vec![3, 4]]);
    let t = a.transpose();
    assert_eq!(t.dimensions, (2, 2));
    assert_eq!(t.values, vec![vec![1, 3], vec![2, 4]]);
}

#[test]
fn transpose_round_trip() {
    let a = mat(vec![vec![1, 2, 3], vec![4, 5, 6]]);
    let t = a.transpose();
    assert_eq!(t.dimensions, (3, 2));
    let back = t.transpose();
    assert_eq!(back.dimensions, a.dimensions);
    assert_eq!(back.values, a.values);
}

#[test]
fn multiply_concrete() {
    let a = mat(vec![vec![1, 2], vec![3, 4]]);
    let b = mat(vec![vec![5, 6], vec![7, 8]]);
    let m = a.multiply(&b).unwrap();
    assert_eq!(m.dimensions, (2, 2));
    assert_eq!(m.values, vec![vec![19, 22], vec![43, 50]]);
}

#[test]
fn multiply_matches_reference_computation() {
    let a = mat(vec![vec![2, -1, 3], vec![0, 4, 5]]);
    let b = mat(vec![vec![1, 2], vec![-3, 0], vec![4, 7]]);
    let m = a.multiply(&b).unwrap();
    for i in 0..2 {
        for j in 0..2 {
            let mut expected: i64 = 0;
            for k in 0..3 {
                expected += a.values[i][k] * b.values[k][j];
            }
            assert_eq!(m.values[i][j], expected);
        }
    }
}

#[test]
fn multiply_rejects_mismatched_inner_dimensions() {
    let a = mat(vec![vec![1, 2], vec![3, 4]]);
    let b = mat(vec![vec![1, 2], vec![3, 4], vec![5, 6]]);
    let r = a.multiply(&b);
    assert_eq!(
        r.err().unwrap(),
        "Attempted to multiply 2 matricies that cannot be multiplied due to dimensions"
    );
}

#[test]
fn multiply_by_transpose_matches_multiply_of_transpose() {
    let a = mat(vec![vec![1, 2, 3], vec![4, 5, 6]]);
    let b = mat(vec![vec![7, 8, 9], vec![10, 11, 12], vec![13, 14, 15], vec![16, 17, 18]]);
    let direct = a.multiply_by_transpose(&b).unwrap();
    let via_transpose = a.multiply(&b.transpose()).unwrap();
    assert_eq!(direct.dimensions, (2, 4));
    assert_eq!(direct.dimensions, via_transpose.dimensions);
    assert_eq!(direct.values, via_transpose.values);
}

#[test]
fn multiply_by_transpose_rejects_mismatched_columns() {
    let a = mat(vec![vec![1, 2], vec![3, 4]]);
    let b = mat(vec![vec![1, 2, 3]]);
    let r = a.multiply_by_transpose(&b);
    assert_eq!(
        r.err().unwrap(),
        "Attempted to multiply the transpose of mat 2 that cannot be multiplied due to dimensions"
    );
}

#[test]
fn hadamard_with_identity_mask() {
    let a = mat(vec![vec![1, 2], vec![3, 4]]);
    let b = mat(vec![vec![1, 0], vec![0, 1]]);
    let m = a.hadamard_mult(&b).unwrap();
    assert_eq!(m.values, vec![vec![1, 0], vec![0, 4]]);
}

#[test]
fn hadamard_rejects_mismatched_shapes() {
    let a = mat(vec![vec![1, 2], vec![3, 4]]);
    let b = mat(vec![vec![1, 2, 3], vec![4, 5, 6]]);
    let r = a.hadamard_mult(&b);
    assert_eq!(
        r.err().unwrap(),
        "Matrix dimensions are not equal to do a Hadarmard multiplication"
    );
}

#[test]
fn addition_concrete() {
    let a = mat(vec![vec![1, 2], vec![3, 4]]);
    let b = mat(vec![vec![10, 20], vec![30, 40]]);
    let m = a.addition(&b).unwrap();
    assert_eq!(m.values, vec![vec![11, 22], vec![33, 44]]);
}

#[test]
fn addition_with_zeros_is_identity() {
    let a = mat(vec![vec![1, -2, 3], vec![4, 5, -6]]);
    let z = Matrix::<i64>::new(2, 3);
    let m = a.addition(&z).unwrap();
    assert_eq!(m.dimensions, a.dimensions);
    assert_eq!(m.values, a.values);
}

#[test]
fn addition_rejects_mismatched_shapes() {
    let a = mat(vec![vec![1, 2]]);
    let b = mat(vec![vec![1, 2], vec![3, 4]]);
    let r = a.addition(&b);
    assert_eq!(
        r.err().unwrap(),
        "Cannot perform addition on matricies of different dimension"
    );
}

#[test]
fn subtraction_concrete() {
    let a = mat(vec![vec![5, 7], vec![9, 11]]);
    let b = mat(vec![vec![1, 2], vec![3, 4]]);
    let m = a.subtraction(&b).unwrap();
    assert_eq!(m.values, vec![vec![4, 5], vec![6, 7]]);
}

#[test]
fn subtraction_rejects_mismatched_shapes() {
    let a = mat(vec![vec![1, 2]]);
    let b = mat(vec![vec![1], vec![2]]);
    let r = a.subtraction(&b);
    assert_eq!(
        r.err().unwrap(),
        "Cannot perform subtraction on matricies of different dimension"
    );
}

#[test]
fn multiply_is_deterministic_across_repeated_invocations() {
    let a = mat(vec![vec![3, 1, 4], vec![1, 5, 9], vec![2, 6, 5]]);
    let b = mat(vec![vec![3, 5], vec![8, 9], vec![7, 9]]);
    let first = a.multiply(&b).unwrap();
    for _ in 0..20 {
        let again = a.multiply(&b).unwrap();
        assert_eq!(again.dimensions, first.dimensions);
        assert_eq!(again.values, first.values);
    }
}

#[test]
fn row_units_match_whole_matrix_results() {
    let a = mat(vec![vec![1, 2], vec![3, 4]]);
    let b = mat(vec![vec![5, 6], vec![7, 8]]);
    let whole = a.multiply(&b).unwrap();
    for i in 0..2 {
        assert_eq!(a.product_row(&b, i), whole.values[i]);
    }
    let t = a.transpose();
    for j in 0..2 {
        assert_eq!(a.transpose_column(j), t.values[j]);
    }
}

#[test]
fn well_formed_checks_declared_dimensions() {
    let good = mat(vec![vec![1, 2], vec![3, 4]]);
    assert!(good.well_formed());
    let bad = Matrix::<i64> { dimensions: (2, 2), values: vec![vec![1, 2], vec![3]] };
    assert!(!bad.well_formed());
}

#[test]
fn engine_works_for_other_element_types() {
    let a = Matrix::<i32>::from_vec(&vec![vec![1, 2], vec![3, 4]]).unwrap();
    let m = a.multiply(&a).unwrap();
    assert_eq!(m.values, vec![vec![7, 10], vec![15, 22]]);
    let b = Matrix::<u64>::from_vec(&vec![vec![5, 6], vec![7, 8]]).unwrap();
    let s = b.subtraction(&b).unwrap();
    assert_eq!(s.values, vec![vec![0, 0], vec![0, 0]]);
}

#[test]
fn clone_is_a_deep_copy() {
    let a = mat(vec![vec![1, 2], vec![3, 4]]);
    let mut c = a.clone();
    assert_eq!(c.dimensions, a.dimensions);
    assert_eq!(c.values, a.values);
    c.values[0][0] = 99;
    assert_eq!(a.values[0][0], 1);
}

#[test]
fn addition_wraps_on_overflow() {
    let a = mat(vec![vec![i64::MAX]]);
    let b = mat(vec![vec![1]]);
    let m = a.addition(&b).unwrap();
    assert_eq!(m.values, vec![vec![i64::MIN]]);
}
