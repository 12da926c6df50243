//! The square matrix type, its constructors, and the random generator.

use vstd::prelude::*;
use rand::Rng;
use rand::SeedableRng;

verus! {

/// A sequence of rows is square when every row is exactly as long as the
/// number of rows.
pub open spec fn is_square(m: Seq<Seq<i64>>) -> bool {
    forall|i: int| 0 <= i < m.len() ==> #[trigger] m[i].len() == m.len()
}

/// The n-by-n matrix with every entry zero.
pub open spec fn zero_seq(n: nat) -> Seq<Seq<i64>> {
    Seq::new(n, |i: int| Seq::new(n, |j: int| 0i64))
}

/// The n-by-n identity matrix: ones on the diagonal, zeros elsewhere.
pub open spec fn identity_seq(n: nat) -> Seq<Seq<i64>> {
    Seq::new(n, |i: int| Seq::new(n, |j: int| if i == j { 1i64 } else { 0i64 }))
}

/// A dense square matrix of 64-bit integer entries, stored row-major.
///
/// Every constructor of the library returns a square matrix, and no
/// method changes a matrix's shape, so a caller may always rely on
/// `wf()`.
#[derive(Debug)]
pub struct Matrix {
    rows: Vec<Vec<i64>>,
}

impl View for Matrix {
    type V = Seq<Seq<i64>>;

    closed spec fn view(&self) -> Seq<Seq<i64>> {
        Seq::new(self.rows@.len() as nat, |i: int| self.rows@[i]@)
    }
}

impl Matrix {
    /// A well-formed matrix is square.
    pub open spec fn wf(&self) -> bool {
        is_square(self@)
    }

    /// The dimension: the number of rows, which equals the number of
    /// columns of a well-formed matrix.
    pub fn dim(&self) -> (n: usize)
        ensures
            n == self@.len(),
    {
        self.rows.len()
    }

    /// Read the entry at row `x`, column `y`.
    pub fn entry(&self, x: usize, y: usize) -> (v: i64)
        requires
            x < self@.len(),
            y < self@[x as int].len(),
        ensures
            v == self@[x as int][y as int],
    {
        self.rows[x][y]
    }

    /// Overwrite the entry at row `x`, column `y`.
    pub fn set_entry(&mut self, x: usize, y: usize, v: i64)
        requires
            x < old(self)@.len(),
            y < old(self)@[x as int].len(),
        ensures
            final(self)@ == old(self)@.update(x as int, old(self)@[x as int].update(y as int, v)),
            final(self)@.len() == old(self)@.len(),
    {
        self.rows[x][y] = v;
        proof {
            assert(self@ =~~= old(self)@.update(x as int, old(self)@[x as int].update(y as int, v)));
        }
    }

    /// The all-zero matrix of dimension `n`.
    pub fn new_zero(n: usize) -> (m: Matrix)
        ensures
            m@ == zero_seq(n as nat),
            m.wf(),
            m@.len() == n,
    {
        let mut rows: Vec<Vec<i64>> = Vec::new();
        while rows.len() < n
            invariant
                rows@.len() <= n,
                forall|i: int| 0 <= i < rows@.len() ==> #[trigger] rows@[i]@ == Seq::new(
                    n as nat,
                    |j: int| 0i64,
                ),
            decreases n - rows@.len(),
        {
            let row: Vec<i64> = vec![0i64; n];
            proof {
                assert(row@ =~= Seq::new(n as nat, |j: int| 0i64));
            }
            rows.push(row);
        }
        let m = Matrix { rows };
        proof {
            assert(m@ =~~= zero_seq(n as nat));
        }
        m
    }

    /// The identity matrix of dimension `n`: ones on the diagonal, zeros
    /// everywhere else.
    pub fn identity(n: usize) -> (m: Matrix)
        ensures
            m@ == identity_seq(n as nat),
            m.wf(),
            m@.len() == n,
    {
        let mut m = Matrix::new_zero(n);
        let mut i: usize = 0;
        while i < n
            invariant
                m@.len() == n,
                is_square(m@),
                i <= n,
                forall|x: int, y: int|
                    0 <= x < n && 0 <= y < n ==> m@[x][y] == if x == y && x < i {
                        1i64
                    } else {
                        0i64
                    },
            decreases n - i,
        {
            m.set_entry(i, i, 1);
            i = i + 1;
        }
        proof {
            assert(m@ =~~= identity_seq(n as nat));
        }
        m
    }

    /// Build a matrix from explicit rows. Returns `Some` exactly when the
    /// rows form a square: as many rows as columns, every row the same
    /// length.
    pub fn from_rows(rows: Vec<Vec<i64>>) -> (r: Option<Matrix>)
        ensures
            match r {
                Some(m) => is_square(rows.deep_view()) && m@ == rows.deep_view() && m.wf(),
                None => !is_square(rows.deep_view()),
            },
    {
        let n = rows.len();
        let mut i: usize = 0;
        while i < n
            invariant
                n == rows@.len(),
                i <= n,
                forall|k: int| 0 <= k < i ==> #[trigger] rows@[k]@.len() == n,
            decreases n - i,
        {
            if rows[i].len() != n {
                proof {
                    assert(rows.deep_view()[i as int].len() != rows.deep_view().len());
                }
                return None;
            }
            i = i + 1;
        }
        let m = Matrix { rows };
        proof {
            assert(m@ =~~= m.rows.deep_view());
        }
        Some(m)
    }

    /// Check at run time that the matrix is square. Every matrix the
    /// library constructs already is; this lets unverified callers test
    /// the engines' precondition before calling them.
    pub fn is_well_formed(&self) -> (b: bool)
        ensures
            b == self.wf(),
    {
        let n = self.rows.len();
        let mut i: usize = 0;
        while i < n
            invariant
                n == self.rows@.len(),
                i <= n,
                forall|k: int| 0 <= k < i ==> #[trigger] self.rows@[k]@.len() == n,
            decreases n - i,
        {
            if self.rows[i].len() != n {
                proof {
                    assert(self@[i as int].len() != self@.len());
                }
                return false;
            }
            i = i + 1;
        }
        true
    }
}

/// Relies on `rand::thread_rng` and `rand::Rng::fill` on an `&mut [i64]`:
/// the call overwrites the slice in place with random data, and a slice's
/// length cannot change. Nothing is promised of the values written.
#[verifier::external_body]
fn fill_random(row: &mut Vec<i64>)
    ensures
        final(row)@.len() == old(row)@.len(),
{
    rand::thread_rng().fill(row.as_mut_slice());
}

/// The deterministic generator type of the rand crate, opaque here: the
/// library only carries values of it between the trusted calls below.
#[verifier::external_type_specification]
#[verifier::external_body]
pub struct ExStdRng(rand::rngs::StdRng);

/// Relies on `rand::SeedableRng::seed_from_u64` for `rand::rngs::StdRng`:
/// builds a generator whose output is a function of the seed alone.
/// Nothing about its output is stated here.
#[verifier::external_body]
fn seeded_rng(seed: u64) -> rand::rngs::StdRng {
    rand::rngs::StdRng::seed_from_u64(seed)
}

/// Relies on `rand::Rng::fill` on an `&mut [i64]` with an explicit
/// generator: the call overwrites the slice in place and advances the
/// generator; a slice's length cannot change. Nothing is promised of the
/// values written.
#[verifier::external_body]
fn fill_from_rng(rng: &mut rand::rngs::StdRng, row: &mut Vec<i64>)
    ensures
        final(row)@.len() == old(row)@.len(),
{
    rng.fill(row.as_mut_slice());
}

/// A freshly generated square matrix of dimension `n`, every entry drawn
/// from the process-level random source, one row filled at a time.
/// Nothing is promised — or reproducible — about the values themselves;
/// only the shape is specified.
pub fn initialize_matrix(n: usize) -> (m: Matrix)
    ensures
        m.wf(),
        m@.len() == n,
{
    let mut rows: Vec<Vec<i64>> = Vec::new();
    while rows.len() < n
        invariant
            rows@.len() <= n,
            forall|i: int| 0 <= i < rows@.len() ==> #[trigger] rows@[i]@.len() == n,
        decreases n - rows@.len(),
    {
        let mut row: Vec<i64> = vec![0i64; n];
        fill_random(&mut row);
        rows.push(row);
    }
    let m = Matrix { rows };
    m
}

/// The generator with an explicit seed: the same seed and dimension
/// reproduce the same matrix under one build of the library, since the
/// underlying generator is a function of the seed alone. As with
/// `initialize_matrix`, only the shape is specified.
pub fn initialize_matrix_seeded(n: usize, seed: u64) -> (m: Matrix)
    ensures
        m.wf(),
        m@.len() == n,
{
    let mut rng = seeded_rng(seed);
    let mut rows: Vec<Vec<i64>> = Vec::new();
    while rows.len() < n
        invariant
            rows@.len() <= n,
            forall|i: int| 0 <= i < rows@.len() ==> #[trigger] rows@[i]@.len() == n,
        decreases n - rows@.len(),
    {
        let mut row: Vec<i64> = vec![0i64; n];
        fill_from_rng(&mut rng, &mut row);
        rows.push(row);
    }
    let m = Matrix { rows };
    m
}

} // verus!
