use matmul_bench::engines::{blocked_mm, naive_mm, EngineError};
use matmul_bench::matrix::{initialize_matrix, Matrix};

fn matrix_from(rows: Vec<Vec<i64>>) -> Matrix {
    Matrix::from_rows(rows).expect("rows must be square")
}

fn assert_same(a: &Matrix, b: &Matrix) {
    assert_eq!(a.dim(), b.dim());
    let n = a.dim();
    for x in 0..n {
        for y in 0..n {
            assert_eq!(a.entry(x, y), b.entry(x, y));
        }
    }
}

fn assert_entries(m: &Matrix, expected: &[&[i64]]) {
    assert_eq!(m.dim(), expected.len());
    for x in 0..expected.len() {
        assert_eq!(expected[x].len(), expected.len());
        for y in 0..expected.len() {
            assert_eq!(m.entry(x, y), expected[x][y]);
        }
    }
}

#[test]
fn two_by_two_concrete_product() {
    let a = matrix_from(vec![vec![1, 2], vec![3, 4]]);
    let b = matrix_from(vec![vec![5, 6], vec![7, 8]]);
    let expected: &[&[i64]] = &[&[19, 22], &[43, 50]];

    let naive = naive_mm(&a, &b).unwrap();
    assert_entries(&naive, expected);

    let blocked_whole = blocked_mm(&a, &b, 2).unwrap();
    assert_entries(&blocked_whole, expected);

    let blocked_unit = blocked_mm(&a, &b, 1).unwrap();
    assert_entries(&blocked_unit, expected);
}

#[test]
fn four_by_four_blocked_matches_reference() {
    let a = matrix_from(vec![
        vec![1, 2, 3, 4],
        vec![5, 6, 7, 8],
        vec![9, 10, 11, 12],
        vec![13, 14, 15, 16],
    ]);
    let b = matrix_from(vec![
        vec![17, 18, 19, 20],
        vec![21, 22, 23, 24],
        vec![25, 26, 27, 28],
        vec![29, 30, 31, 32],
    ]);
    // Hand-computed reference product.
    let expected: &[&[i64]] = &[
        &[250, 260, 270, 280],
        &[618, 644, 670, 696],
        &[986, 1028, 1070, 1112],
        &[1354, 1412, 1470, 1528],
    ];

    let naive = naive_mm(&a, &b).unwrap();
    assert_entries(&naive, expected);

    let blocked = blocked_mm(&a, &b, 2).unwrap();
    assert_entries(&blocked, expected);
    assert_same(&naive, &blocked);
}

#[test]
fn naive_blocked_equivalence_random() {
    let a = initialize_matrix(8);
    let b = initialize_matrix(8);
    let naive = naive_mm(&a, &b).unwrap();
    for block in [1, 2, 4, 8] {
        let blocked = blocked_mm(&a, &b, block).unwrap();
        assert_same(&naive, &blocked);
    }
}

#[test]
fn identity_property_both_engines() {
    let a = initialize_matrix(4);
    let ident = Matrix::identity(4);

    let naive = naive_mm(&a, &ident).unwrap();
    assert_same(&naive, &a);
    let blocked = blocked_mm(&a, &ident, 2).unwrap();
    assert_same(&blocked, &a);

    let naive_left = naive_mm(&ident, &a).unwrap();
    assert_same(&naive_left, &a);
    let blocked_left = blocked_mm(&ident, &a, 2).unwrap();
    assert_same(&blocked_left, &a);
}

#[test]
fn zero_property_both_engines() {
    let a = initialize_matrix(4);
    let zero = Matrix::new_zero(4);

    let naive = naive_mm(&a, &zero).unwrap();
    assert_same(&naive, &zero);
    let blocked = blocked_mm(&a, &zero, 2).unwrap();
    assert_same(&blocked, &zero);
}

#[test]
fn blocked_rejects_bad_block() {
    let a = initialize_matrix(4);
    let b = initialize_matrix(4);
    assert_eq!(blocked_mm(&a, &b, 3).unwrap_err(), EngineError::BlockSize);
    assert_eq!(blocked_mm(&a, &b, 0).unwrap_err(), EngineError::BlockSize);
    assert_eq!(blocked_mm(&a, &b, 5).unwrap_err(), EngineError::BlockSize);
    assert!(blocked_mm(&a, &b, 4).is_ok());
}

#[test]
fn engines_reject_dimension_mismatch() {
    let a = initialize_matrix(2);
    let b = initialize_matrix(3);
    assert_eq!(
        naive_mm(&a, &b).unwrap_err(),
        EngineError::DimensionMismatch
    );
    assert_eq!(
        blocked_mm(&a, &b, 1).unwrap_err(),
        EngineError::DimensionMismatch
    );
}

#[test]
fn output_dimensions() {
    let a = initialize_matrix(6);
    let b = initialize_matrix(6);
    let naive = naive_mm(&a, &b).unwrap();
    assert_eq!(naive.dim(), 6);
    assert!(naive.is_well_formed());
    let blocked = blocked_mm(&a, &b, 3).unwrap();
    assert_eq!(blocked.dim(), 6);
    assert!(blocked.is_well_formed());
}

#[test]
fn one_by_one_wrapping_product() {
    let a = matrix_from(vec![vec![i64::MAX]]);
    let b = matrix_from(vec![vec![2]]);
    let naive = naive_mm(&a, &b).unwrap();
    assert_eq!(naive.entry(0, 0), i64::MAX.wrapping_mul(2));
    let blocked = blocked_mm(&a, &b, 1).unwrap();
    assert_eq!(blocked.entry(0, 0), i64::MAX.wrapping_mul(2));
}
