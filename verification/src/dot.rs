//! Dot products of vectors and products of matrices.
use vstd::prelude::*;
use vstd::std_specs::ops::MulSpec;
use crate::arith::{Scalar, exact_additive, exact_ops, kahan_pair, kahan_sum, lemma_kahan_pair_exact, plain_sum, total_ops};
use crate::tensor::rect2;

verus! {

/// The dot product of the first `n` entries of `a` and `b`: a running value,
/// starting at `zero`, to which each product `a[x] * b[x]` in turn is added by
/// compensated summation of the pair (running value, product).
pub open spec fn dot_spec<T: Scalar>(a: Seq<T>, b: Seq<T>, n: int, zero: T) -> T
    decreases n,
{
    if n <= 0 {
        zero
    } else {
        kahan_pair(dot_spec(a, b, n - 1, zero), a[n - 1].mul_spec(b[n - 1]), zero)
    }
}

/// The products `a[x] * b[x]` for `x < n`.
pub open spec fn products<T: Scalar>(a: Seq<T>, b: Seq<T>, n: int) -> Seq<T> {
    Seq::new(n as nat, |x: int| a[x].mul_spec(b[x]))
}

/// In exact arithmetic the dot product is the plain sum of the products
/// `a[x] * b[x]`.
pub proof fn lemma_dot_exact<T: Scalar>(a: Seq<T>, b: Seq<T>, n: int, zero: T)
    requires
        exact_additive::<T>(zero),
        0 <= n,
    ensures
        dot_spec(a, b, n, zero) == plain_sum(products(a, b, n), zero),
    decreases n,
{
    if n > 0 {
        lemma_dot_exact(a, b, n - 1, zero);
        lemma_kahan_pair_exact(dot_spec(a, b, n - 1, zero), a[n - 1].mul_spec(b[n - 1]), zero);
        assert(products(a, b, n).drop_last() =~= products(a, b, n - 1));
    }
}

/// Column `col` of the matrix `m` with `rows` rows.
pub open spec fn column<T>(m: Seq<Vec<T>>, rows: int, col: int) -> Seq<T> {
    Seq::new(rows as nat, |x: int| m[x][col])
}

/// In exact arithmetic, entry `(y, z)` of the product of `a` (rows of `n`
/// values) and `b` (`n` rows) is the plain sum over `x < n` of
/// `a[y][x] * b[x][z]`.
pub proof fn lemma_matrix_entry_exact<T: Scalar>(a: Seq<Vec<T>>, b: Seq<Vec<T>>, n: int, y: int, z: int, zero: T)
    requires
        exact_additive::<T>(zero),
        0 <= n,
    ensures
        dot_spec(a[y]@, column(b, n, z), n, zero) == plain_sum(
            Seq::new(n as nat, |x: int| a[y][x].mul_spec(b[x][z])),
            zero,
        ),
{
    lemma_dot_exact(a[y]@, column(b, n, z), n, zero);
    assert(products(a[y]@, column(b, n, z), n) =~= Seq::new(n as nat, |x: int| a[y][x].mul_spec(b[x][z])));
}

/// The dot product of `a` and `b` (see `dot_spec`).
pub fn dot_product<T: Scalar>(a: &[T], b: &[T], zero: T) -> (r: T)
    requires
        a@.len() == b@.len(),
        total_ops::<T>(),
    ensures
        exact_ops::<T>() ==> r == dot_spec(a@, b@, a@.len() as int, zero),
{
    let mut ret = zero;
    let mut x: usize = 0;
    while x < a.len()
        invariant
            a@.len() == b@.len(),
            total_ops::<T>(),
            x <= a@.len(),
            exact_ops::<T>() ==> ret == dot_spec(a@, b@, x as int, zero),
        decreases a@.len() - x,
    {
        let p = a[x] * b[x];
        let pair = [ret, p];
        ret = kahan_sum(&pair, zero);
        assert(pair@ =~= seq![pair[0], pair[1]]);
        x = x + 1;
    }
    ret
}

/// The transpose of the `rows x cols` matrix `m`.
pub(crate) fn pivot<T: Copy>(m: &Vec<Vec<T>>, rows: usize, cols: usize) -> (r: Vec<Vec<T>>)
    requires
        rect2(m@, rows as int, cols as int),
    ensures
        rect2(r@, cols as int, rows as int),
        forall|z: int, x: int| 0 <= z < cols && 0 <= x < rows ==> #[trigger] r@[z]@[x] == m@[x]@[z],
{
    let mut r: Vec<Vec<T>> = Vec::new();
    let mut z: usize = 0;
    while z < cols
        invariant
            rect2(m@, rows as int, cols as int),
            z <= cols,
            rect2(r@, z as int, rows as int),
            forall|zz: int, x: int|
                0 <= zz < z && 0 <= x < rows ==> #[trigger] r@[zz]@[x] == m@[x]@[zz],
        decreases cols - z,
    {
        let mut col: Vec<T> = Vec::new();
        let mut x: usize = 0;
        while x < rows
            invariant
                rect2(m@, rows as int, cols as int),
                z < cols,
                x <= rows,
                col@.len() == x,
                forall|xx: int| 0 <= xx < x ==> #[trigger] col@[xx] == m@[xx]@[z as int],
            decreases rows - x,
        {
            assert(m@[x as int].len() == cols);
            col.push(m[x][z]);
            x = x + 1;
        }
        let ghost prev = r@;
        r.push(col);
        proof {
            assert forall|zz: int, x: int| 0 <= zz < z + 1 && 0 <= x < rows implies #[trigger] r@[zz]@[x]
                == m@[x]@[zz] by {
                if zz < z {
                    assert(r@[zz] == prev[zz]);
                }
            }
        }
        z = z + 1;
    }
    r
}

/// The product of the `Y x X` matrix `a` and the `X x Z` matrix `b`: entry
/// `(y, z)` is the dot product (see `dot_spec`) of row `y` of `a` and column
/// `z` of `b`.
pub fn dot_product_2d<T: Scalar, const X: usize, const Y: usize, const Z: usize>(
    a: &Vec<Vec<T>>,
    b: &Vec<Vec<T>>,
    zero: T,
) -> (r: Vec<Vec<T>>)
    requires
        rect2(a@, Y as int, X as int),
        rect2(b@, X as int, Z as int),
        total_ops::<T>(),
    ensures
        rect2(r@, Y as int, Z as int),
        exact_ops::<T>() ==> forall|y: int, z: int|
            0 <= y < Y && 0 <= z < Z ==> #[trigger] r@[y]@[z] == dot_spec(
                a@[y]@,
                column(b@, X as int, z),
                X as int,
                zero,
            ),
{
    let new_b = pivot(b, X, Z);
    let mut ret: Vec<Vec<T>> = Vec::new();
    let mut y: usize = 0;
    while y < Y
        invariant
            rect2(a@, Y as int, X as int),
            rect2(b@, X as int, Z as int),
            rect2(new_b@, Z as int, X as int),
            forall|z: int, x: int|
                0 <= z < Z && 0 <= x < X ==> #[trigger] new_b@[z]@[x] == b@[x]@[z],
            total_ops::<T>(),
            y <= Y,
            rect2(ret@, y as int, Z as int),
            exact_ops::<T>() ==> forall|yy: int, z: int|
                0 <= yy < y && 0 <= z < Z ==> #[trigger] ret@[yy]@[z] == dot_spec(
                    a@[yy]@,
                    column(b@, X as int, z),
                    X as int,
                    zero,
                ),
        decreases Y - y,
    {
        let mut row: Vec<T> = Vec::new();
        let mut z: usize = 0;
        while z < Z
            invariant
                rect2(a@, Y as int, X as int),
                rect2(b@, X as int, Z as int),
                rect2(new_b@, Z as int, X as int),
                forall|zz: int, x: int|
                    0 <= zz < Z && 0 <= x < X ==> #[trigger] new_b@[zz]@[x] == b@[x]@[zz],
                total_ops::<T>(),
                y < Y,
                z <= Z,
                row@.len() == z,
                exact_ops::<T>() ==> forall|zz: int|
                    0 <= zz < z ==> #[trigger] row@[zz] == dot_spec(
                        a@[y as int]@,
                        column(b@, X as int, zz),
                        X as int,
                        zero,
                    ),
            decreases Z - z,
        {
            assert(a@[y as int].len() == X);
            assert(new_b@[z as int].len() == X);
            let v = dot_product(a[y].as_slice(), new_b[z].as_slice(), zero);
            assert(new_b@[z as int]@ =~= column(b@, X as int, z as int));
            row.push(v);
            z = z + 1;
        }
        let ghost prev = ret@;
        ret.push(row);
        proof {
            if exact_ops::<T>() {
                assert forall|yy: int, z: int| 0 <= yy < y + 1 && 0 <= z < Z implies #[trigger] ret@[yy]@[z]
                    == dot_spec(a@[yy]@, column(b@, X as int, z), X as int, zero) by {
                    if yy < y {
                        assert(ret@[yy] == prev[yy]);
                    }
                }
            }
        }
        y = y + 1;
    }
    ret
}

} // verus!
