//! The two multiplication engines and the laws that relate them.
//!
//! Both engines compute the same mathematical product: cell (x, y) of the
//! output is the inner product of row x of the left factor with column y
//! of the right factor, accumulated term by term in order of increasing
//! index with wrapping 64-bit arithmetic. The naive engine walks the
//! output row-major; the blocked engine tiles the output into square
//! blocks to improve cache locality, without changing any cell's value.

use vstd::prelude::*;
use crate::matrix::{Matrix, is_square, zero_seq, identity_seq};
use vstd::wrapping::i64_specs;

verus! {

/// One accumulation step, `acc + a * b`, with wrapping 64-bit arithmetic —
/// exactly the operation both engines perform per reduction term.
pub open spec fn mac(acc: i64, a: i64, b: i64) -> i64 {
    i64_specs::wrapping_add(acc, i64_specs::wrapping_mul(a, b))
}

/// The value of output cell (x, y) after accumulating the first `k` terms
/// of the inner product of row x of `a` with column y of `b`.
pub open spec fn product_entry(a: Seq<Seq<i64>>, b: Seq<Seq<i64>>, x: int, y: int, k: int) -> i64
    decreases k,
{
    if k <= 0 {
        0i64
    } else {
        mac(product_entry(a, b, x, y, k - 1), a[x][k - 1], b[k - 1][y])
    }
}

/// The full product matrix: every cell accumulates all `a.len()` terms.
pub open spec fn product_seq(a: Seq<Seq<i64>>, b: Seq<Seq<i64>>) -> Seq<Seq<i64>> {
    Seq::new(
        a.len(),
        |x: int| Seq::new(a.len(), |y: int| product_entry(a, b, x, y, a.len() as int)),
    )
}

/// Why an engine refused a pair of inputs.
#[derive(Debug, PartialEq, Eq, Structural, Clone, Copy)]
pub enum EngineError {
    /// The two matrices do not have the same dimension.
    DimensionMismatch,
    /// The block size is zero or does not divide the dimension evenly.
    BlockSize,
}

/// The naive engine: for each output cell, walk the full row of `a` and
/// the full column of `b` (the cache-unfriendly baseline), row-major over
/// the output.
pub fn naive_mm(a: &Matrix, b: &Matrix) -> (r: Result<Matrix, EngineError>)
    requires
        a.wf(),
        b.wf(),
    ensures
        match r {
            Ok(c) => {
                &&& a@.len() == b@.len()
                &&& c@ == product_seq(a@, b@)
                &&& c.wf()
                &&& c@.len() == a@.len()
            },
            Err(e) => e == EngineError::DimensionMismatch && a@.len() != b@.len(),
        },
{
    let n = a.dim();
    if n != b.dim() {
        return Err(EngineError::DimensionMismatch);
    }
    let mut c = Matrix::new_zero(n);
    let mut x: usize = 0;
    while x < n
        invariant
            a.wf(),
            b.wf(),
            a@.len() == n,
            b@.len() == n,
            c@.len() == n,
            is_square(c@),
            x <= n,
            forall|i: int, j: int|
                0 <= i < x && 0 <= j < n ==> c@[i][j] == product_entry(a@, b@, i, j, n as int),
        decreases n - x,
    {
        let mut y: usize = 0;
        while y < n
            invariant
                a.wf(),
                b.wf(),
                a@.len() == n,
                b@.len() == n,
                c@.len() == n,
                is_square(c@),
                x < n,
                y <= n,
                forall|i: int, j: int|
                    0 <= i < x && 0 <= j < n ==> c@[i][j] == product_entry(a@, b@, i, j, n as int),
                forall|j: int|
                    0 <= j < y ==> c@[x as int][j] == product_entry(a@, b@, x as int, j, n as int),
            decreases n - y,
        {
            let mut cxy: i64 = 0;
            let mut z: usize = 0;
            while z < n
                invariant
                    a.wf(),
                    b.wf(),
                    a@.len() == n,
                    b@.len() == n,
                    x < n,
                    y < n,
                    z <= n,
                    cxy == product_entry(a@, b@, x as int, y as int, z as int),
                decreases n - z,
            {
                cxy = cxy.wrapping_add(a.entry(x, z).wrapping_mul(b.entry(z, y)));
                z = z + 1;
            }
            c.set_entry(x, y, cxy);
            y = y + 1;
        }
        x = x + 1;
    }
    proof {
        assert(c@ =~~= product_seq(a@, b@));
    }
    Ok(c)
}

/// A multiple of `block` strictly below another multiple is at least one
/// whole block below it.
proof fn lemma_multiple_step(bx: int, n: int, block: int)
    requires
        block > 0,
        bx % block == 0,
        n % block == 0,
        0 <= bx < n,
    ensures
        bx + block <= n,
{
    vstd::arithmetic::div_mod::lemma_fundamental_div_mod(bx, block);
    vstd::arithmetic::div_mod::lemma_fundamental_div_mod(n, block);
    let q1: int = bx / block;
    let q2: int = n / block;
    assert(q1 * block < q2 * block) by (nonlinear_arith)
        requires
            bx == block * q1,
            n == block * q2,
            bx < n,
    ;
    vstd::arithmetic::mul::lemma_mul_strict_inequality_converse(q1, q2, block);
    vstd::arithmetic::mul::lemma_mul_inequality(q1 + 1, q2, block);
    assert(bx + block <= n) by (nonlinear_arith)
        requires
            (q1 + 1) * block <= q2 * block,
            bx == block * q1,
            n == block * q2,
    ;
}

/// Fill the output block whose rows are `bx..bx+block` and whose columns
/// are `by..by+block`; every other cell of `c` is left unchanged. The
/// reduction over `k` still spans the full dimension per cell.
fn compute_block(a: &Matrix, b: &Matrix, c: &mut Matrix, bx: usize, by: usize, block: usize)
    requires
        a.wf(),
        b.wf(),
        a@.len() == b@.len(),
        old(c)@.len() == a@.len(),
        is_square(old(c)@),
        bx + block <= a@.len(),
        by + block <= a@.len(),
    ensures
        final(c)@.len() == old(c)@.len(),
        is_square(final(c)@),
        forall|i: int, j: int|
            bx <= i < bx + block && by <= j < by + block ==> final(c)@[i][j] == product_entry(
                a@,
                b@,
                i,
                j,
                a@.len() as int,
            ),
        forall|i: int, j: int|
            0 <= i < old(c)@.len() && 0 <= j < old(c)@.len() && !(bx <= i < bx + block && by <= j
                < by + block) ==> final(c)@[i][j] == old(c)@[i][j],
{
    let n = a.dim();
    let mut x: usize = bx;
    while x < bx + block
        invariant
            a.wf(),
            b.wf(),
            a@.len() == n,
            b@.len() == n,
            c@.len() == n,
            is_square(c@),
            bx + block <= n,
            by + block <= n,
            bx <= x <= bx + block,
            forall|i: int, j: int|
                bx <= i < x && by <= j < by + block ==> c@[i][j] == product_entry(
                    a@,
                    b@,
                    i,
                    j,
                    n as int,
                ),
            forall|i: int, j: int|
                0 <= i < n && 0 <= j < n && !(bx <= i < x && by <= j < by + block) ==> c@[i][j]
                    == old(c)@[i][j],
        decreases bx + block - x,
    {
        let mut y: usize = by;
        while y < by + block
            invariant
                a.wf(),
                b.wf(),
                a@.len() == n,
                b@.len() == n,
                c@.len() == n,
                is_square(c@),
                bx + block <= n,
                by + block <= n,
                bx <= x < bx + block,
                by <= y <= by + block,
                forall|i: int, j: int|
                    bx <= i < x && by <= j < by + block ==> c@[i][j] == product_entry(
                        a@,
                        b@,
                        i,
                        j,
                        n as int,
                    ),
                forall|j: int|
                    by <= j < y ==> c@[x as int][j] == product_entry(a@, b@, x as int, j, n as int),
                forall|i: int, j: int|
                    0 <= i < n && 0 <= j < n && !(bx <= i < x && by <= j < by + block) && !(i == x
                        && by <= j < y) ==> c@[i][j] == old(c)@[i][j],
            decreases by + block - y,
        {
            let mut cxy: i64 = 0;
            let mut z: usize = 0;
            while z < n
                invariant
                    a.wf(),
                    b.wf(),
                    a@.len() == n,
                    b@.len() == n,
                    x < n,
                    y < n,
                    z <= n,
                    cxy == product_entry(a@, b@, x as int, y as int, z as int),
                decreases n - z,
            {
                cxy = cxy.wrapping_add(a.entry(x, z).wrapping_mul(b.entry(z, y)));
                z = z + 1;
            }
            c.set_entry(x, y, cxy);
            y = y + 1;
        }
        x = x + 1;
    }
}

/// The blocked engine: tiles the output into `block`-by-`block` squares
/// (outer loops over block origins, inner loops within the block) so that
/// nearby cells are produced together; each cell's value and accumulation
/// order are identical to the naive engine's.
pub fn blocked_mm(a: &Matrix, b: &Matrix, block: usize) -> (r: Result<Matrix, EngineError>)
    requires
        a.wf(),
        b.wf(),
    ensures
        match r {
            Ok(c) => {
                &&& a@.len() == b@.len()
                &&& block > 0
                &&& a@.len() as int % (block as int) == 0
                &&& c@ == product_seq(a@, b@)
                &&& c.wf()
                &&& c@.len() == a@.len()
            },
            Err(EngineError::DimensionMismatch) => a@.len() != b@.len(),
            Err(EngineError::BlockSize) => a@.len() == b@.len() && (block == 0
                || a@.len() as int % (block as int) != 0),
        },
{
    let n = a.dim();
    if n != b.dim() {
        return Err(EngineError::DimensionMismatch);
    }
    if block == 0 || n % block != 0 {
        return Err(EngineError::BlockSize);
    }
    let mut c = Matrix::new_zero(n);
    let mut bx: usize = 0;
    while bx < n
        invariant
            a.wf(),
            b.wf(),
            a@.len() == n,
            b@.len() == n,
            c@.len() == n,
            is_square(c@),
            block > 0,
            n % block == 0,
            bx % block == 0,
            bx <= n,
            forall|i: int, j: int|
                0 <= i < bx && 0 <= j < n ==> c@[i][j] == product_entry(a@, b@, i, j, n as int),
        decreases n - bx,
    {
        proof {
            lemma_multiple_step(bx as int, n as int, block as int);
        }
        let mut by: usize = 0;
        while by < n
            invariant
                a.wf(),
                b.wf(),
                a@.len() == n,
                b@.len() == n,
                c@.len() == n,
                is_square(c@),
                block > 0,
                n % block == 0,
                bx % block == 0,
                by % block == 0,
                bx < n,
                bx + block <= n,
                by <= n,
                forall|i: int, j: int|
                    0 <= i < bx && 0 <= j < n ==> c@[i][j] == product_entry(a@, b@, i, j, n as int),
                forall|i: int, j: int|
                    bx <= i < bx + block && 0 <= j < by ==> c@[i][j] == product_entry(
                        a@,
                        b@,
                        i,
                        j,
                        n as int,
                    ),
            decreases n - by,
        {
            proof {
                lemma_multiple_step(by as int, n as int, block as int);
            }
            compute_block(a, b, &mut c, bx, by, block);
            proof {
                vstd::arithmetic::div_mod::lemma_mod_add_multiples_vanish(by as int, block as int);
            }
            by = by + block;
        }
        proof {
            vstd::arithmetic::div_mod::lemma_mod_add_multiples_vanish(bx as int, block as int);
        }
        bx = bx + block;
    }
    proof {
        assert(c@ =~~= product_seq(a@, b@));
    }
    Ok(c)
}

/// Truncating an integer already in 64-bit signed range changes nothing.
proof fn lemma_signed_crop_in_range(x: int)
    requires
        i64::MIN <= x <= i64::MAX,
    ensures
        i64_specs::signed_crop(x) == x as i64,
{
    let r: int = 0x1_0000_0000_0000_0000;
    if x >= 0 {
        vstd::arithmetic::div_mod::lemma_small_mod(x as nat, r as nat);
    } else {
        vstd::arithmetic::div_mod::lemma_mod_add_multiples_vanish(x, r);
        vstd::arithmetic::div_mod::lemma_small_mod((x + r) as nat, r as nat);
        assert(x % r == x + r);
    }
}

/// Unit laws of the wrapping operations: adding zero and multiplying by
/// one keep a value, multiplying by zero gives zero.
proof fn lemma_wrapping_units(x: i64)
    ensures
        i64_specs::wrapping_add(x, 0i64) == x,
        i64_specs::wrapping_add(0i64, x) == x,
        i64_specs::wrapping_mul(x, 1i64) == x,
        i64_specs::wrapping_mul(1i64, x) == x,
        i64_specs::wrapping_mul(x, 0i64) == 0i64,
        i64_specs::wrapping_mul(0i64, x) == 0i64,
{
    lemma_signed_crop_in_range(x as int);
    lemma_signed_crop_in_range(0);
}

/// The partial inner product against the identity on the right: only the
/// diagonal term contributes, so after `k` terms the cell holds `a[x][y]`
/// exactly when the accumulation has passed index `y`.
proof fn lemma_identity_entry(a: Seq<Seq<i64>>, x: int, y: int, k: int)
    requires
        is_square(a),
        0 <= x < a.len(),
        0 <= y < a.len(),
        0 <= k <= a.len(),
    ensures
        product_entry(a, identity_seq(a.len()), x, y, k) == if k > y {
            a[x][y]
        } else {
            0i64
        },
    decreases k,
{
    let ident = identity_seq(a.len());
    if k > 0 {
        lemma_identity_entry(a, x, y, k - 1);
        lemma_wrapping_units(a[x][k - 1]);
        lemma_wrapping_units(product_entry(a, ident, x, y, k - 1));
        if k - 1 == y {
            assert(ident[k - 1][y] == 1i64);
        } else {
            assert(ident[k - 1][y] == 0i64);
        }
    }
}

/// Law: multiplying any square matrix by the identity matrix of the same
/// dimension returns the matrix itself, exactly. Both engines compute
/// `product_seq`, so the law holds of either engine's output.
pub proof fn lemma_identity_right(a: Seq<Seq<i64>>)
    requires
        is_square(a),
    ensures
        product_seq(a, identity_seq(a.len())) == a,
{
    let n = a.len() as int;
    let ident = identity_seq(a.len());
    assert forall|x: int, y: int| 0 <= x < n && 0 <= y < n implies product_entry(
        a,
        ident,
        x,
        y,
        n,
    ) == a[x][y] by {
        lemma_identity_entry(a, x, y, n);
    };
    assert(product_seq(a, ident) =~~= a);
}

/// The partial inner product against the identity on the left mirrors the
/// right-identity argument: only the term at index `x` contributes.
proof fn lemma_identity_entry_left(a: Seq<Seq<i64>>, x: int, y: int, k: int)
    requires
        is_square(a),
        0 <= x < a.len(),
        0 <= y < a.len(),
        0 <= k <= a.len(),
    ensures
        product_entry(identity_seq(a.len()), a, x, y, k) == if k > x {
            a[x][y]
        } else {
            0i64
        },
    decreases k,
{
    let ident = identity_seq(a.len());
    if k > 0 {
        lemma_identity_entry_left(a, x, y, k - 1);
        lemma_wrapping_units(a[k - 1][y]);
        lemma_wrapping_units(product_entry(ident, a, x, y, k - 1));
        if k - 1 == x {
            assert(ident[x][k - 1] == 1i64);
        } else {
            assert(ident[x][k - 1] == 0i64);
        }
    }
}

/// Law: multiplying the identity matrix by any square matrix of the same
/// dimension returns that matrix, exactly.
pub proof fn lemma_identity_left(a: Seq<Seq<i64>>)
    requires
        is_square(a),
    ensures
        product_seq(identity_seq(a.len()), a) == a,
{
    let n = a.len() as int;
    let ident = identity_seq(a.len());
    assert forall|x: int, y: int| 0 <= x < n && 0 <= y < n implies product_entry(
        ident,
        a,
        x,
        y,
        n,
    ) == a[x][y] by {
        lemma_identity_entry_left(a, x, y, n);
    };
    assert(product_seq(ident, a) =~~= a);
}

/// Every partial inner product against the all-zero matrix on the right
/// is zero: each term multiplies by zero.
proof fn lemma_zero_entry(a: Seq<Seq<i64>>, x: int, y: int, k: int)
    requires
        is_square(a),
        0 <= x < a.len(),
        0 <= y < a.len(),
        0 <= k <= a.len(),
    ensures
        product_entry(a, zero_seq(a.len()), x, y, k) == 0i64,
    decreases k,
{
    if k > 0 {
        lemma_zero_entry(a, x, y, k - 1);
        lemma_wrapping_units(a[x][k - 1]);
    }
}

/// Law: multiplying any square matrix by the all-zero matrix of the same
/// dimension returns the all-zero matrix, exactly.
pub proof fn lemma_zero_right(a: Seq<Seq<i64>>)
    requires
        is_square(a),
    ensures
        product_seq(a, zero_seq(a.len())) == zero_seq(a.len()),
{
    let n = a.len() as int;
    assert forall|x: int, y: int| 0 <= x < n && 0 <= y < n implies product_entry(
        a,
        zero_seq(a.len()),
        x,
        y,
        n,
    ) == 0i64 by {
        lemma_zero_entry(a, x, y, n);
    };
    assert(product_seq(a, zero_seq(a.len())) =~~= zero_seq(a.len()));
}

/// Law: the two engines are equivalent. Each engine's contract pins its
/// output to `product_seq` of the inputs, so two outputs produced from the
/// same pair of matrices — one by the naive engine, one by the blocked
/// engine, with any admissible block size — are equal.
pub proof fn lemma_engines_equivalent(
    a: Seq<Seq<i64>>,
    b: Seq<Seq<i64>>,
    c_naive: Seq<Seq<i64>>,
    c_blocked: Seq<Seq<i64>>,
)
    requires
        c_naive == product_seq(a, b),
        c_blocked == product_seq(a, b),
    ensures
        c_naive == c_blocked,
{
}

} // verus!
