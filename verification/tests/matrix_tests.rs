use matmul_bench::matrix::{initialize_matrix, initialize_matrix_seeded, Matrix};

#[test]
fn from_rows_accepts_square() {
    let m = Matrix::from_rows(vec![vec![1, 2], vec![3, 4]]).unwrap();
    assert_eq!(m.dim(), 2);
    assert!(m.is_well_formed());
    assert_eq!(m.entry(0, 0), 1);
    assert_eq!(m.entry(0, 1), 2);
    assert_eq!(m.entry(1, 0), 3);
    assert_eq!(m.entry(1, 1), 4);
}

#[test]
fn from_rows_rejects_ragged() {
    assert!(Matrix::from_rows(vec![vec![1, 2], vec![3]]).is_none());
    assert!(Matrix::from_rows(vec![vec![1, 2]]).is_none());
    assert!(Matrix::from_rows(vec![vec![1], vec![2], vec![3]]).is_none());
}

#[test]
fn from_rows_accepts_empty() {
    let m = Matrix::from_rows(Vec::new()).unwrap();
    assert_eq!(m.dim(), 0);
    assert!(m.is_well_formed());
}

#[test]
fn zero_and_identity_entries() {
    let z = Matrix::new_zero(3);
    let ident = Matrix::identity(3);
    assert_eq!(z.dim(), 3);
    assert_eq!(ident.dim(), 3);
    for x in 0..3 {
        for y in 0..3 {
            assert_eq!(z.entry(x, y), 0);
            assert_eq!(ident.entry(x, y), if x == y { 1 } else { 0 });
        }
    }
}

#[test]
fn generator_shape() {
    let m = initialize_matrix(5);
    assert_eq!(m.dim(), 5);
    assert!(m.is_well_formed());
}

#[test]
fn seeded_generator_reproducible() {
    let a = initialize_matrix_seeded(4, 42);
    let b = initialize_matrix_seeded(4, 42);
    assert_eq!(a.dim(), 4);
    assert!(a.is_well_formed());
    for x in 0..4 {
        for y in 0..4 {
            assert_eq!(a.entry(x, y), b.entry(x, y));
        }
    }
}

#[test]
fn set_entry_roundtrip() {
    let mut m = Matrix::new_zero(2);
    m.set_entry(0, 1, 7);
    assert_eq!(m.entry(0, 1), 7);
    assert_eq!(m.entry(0, 0), 0);
    assert_eq!(m.entry(1, 0), 0);
    assert_eq!(m.entry(1, 1), 0);
}
