//! The matrix model: rectangular sequences of `i32` rows, columns read out
//! of the right-hand matrix, and the saturating dot product that defines
//! each cell of a matrix product.

use vstd::prelude::*;

verus! {

/// A matrix is a vector of rows. It is rectangular when every row has the
/// length of the first one; `mat_cols` is 0 for a matrix with no rows.
pub type Matrix = Vec<Vec<i32>>;

/// Number of rows.
pub open spec fn mat_rows(m: Seq<Seq<i32>>) -> int {
    m.len() as int
}

/// Number of columns: the length of the first row, 0 if there are no rows.
pub open spec fn mat_cols(m: Seq<Seq<i32>>) -> int {
    if m.len() == 0 {
        0
    } else {
        m[0].len() as int
    }
}

/// Every row has the length of the first row.
pub open spec fn is_rectangular(m: Seq<Seq<i32>>) -> bool {
    forall|i: int| 0 <= i < m.len() ==> (#[trigger] m[i].len()) == mat_cols(m)
}

/// The j-th column of a matrix, read top to bottom.
pub open spec fn col_seq(m: Seq<Seq<i32>>, j: int) -> Seq<i32> {
    Seq::new(m.len(), |k: int| m[k][j])
}

/// Clamp an unbounded integer into the `i32` range.
pub open spec fn clamp(x: int) -> i32 {
    if x > i32::MAX {
        i32::MAX
    } else if x < i32::MIN {
        i32::MIN
    } else {
        x as i32
    }
}

/// Saturating sum of two `i32` values.
pub open spec fn sat_add(a: i32, b: i32) -> i32 {
    clamp(a + b)
}

/// Saturating product of two `i32` values.
pub open spec fn sat_mul(a: i32, b: i32) -> i32 {
    clamp(a * b)
}

/// Dot product with saturating arithmetic, folded left to right: each
/// element product and each partial sum clamps at the `i32` bounds.
pub open spec fn dot_spec(row: Seq<i32>, col: Seq<i32>) -> i32
    decreases row.len(),
{
    if row.len() == 0 {
        0
    } else {
        sat_add(
            dot_spec(row.drop_last(), col.drop_last()),
            sat_mul(row.last(), col.last()),
        )
    }
}

/// The matrix product: cell (i, j) is the saturating dot product of the
/// i-th row of `left` with the j-th column of `right`.
pub open spec fn product_spec(left: Seq<Seq<i32>>, right: Seq<Seq<i32>>) -> Seq<Seq<i32>> {
    Seq::new(
        left.len(),
        |i: int| Seq::new(mat_cols(right) as nat, |j: int| dot_spec(left[i], col_seq(right, j))),
    )
}

/// An element-wise copy of one row.
pub fn clone_row(v: &Vec<i32>) -> (r: Vec<i32>)
    ensures
        r@ == v@,
{
    let mut r: Vec<i32> = Vec::new();
    let mut t: usize = 0;
    while t < v.len()
        invariant
            t <= v@.len(),
            r@ == v@.take(t as int),
        decreases v@.len() - t,
    {
        r.push(v[t]);
        proof {
            assert(v@.take(t + 1) =~= v@.take(t as int).push(v@[t as int]));
        }
        t += 1;
    }
    proof {
        assert(v@.take(v@.len() as int) =~= v@);
    }
    r
}

/// Saturating `i32` multiplication, computed exactly through `i64`.
pub fn saturating_mul_i32(a: i32, b: i32) -> (r: i32)
    ensures
        r == sat_mul(a, b),
{
    proof {
        assert(i64::MIN <= (a as int) * (b as int) <= i64::MAX) by (nonlinear_arith)
            requires
                i32::MIN <= a <= i32::MAX,
                i32::MIN <= b <= i32::MAX,
        ;
    }
    let p: i64 = (a as i64) * (b as i64);
    if p > i32::MAX as i64 {
        i32::MAX
    } else if p < i32::MIN as i64 {
        i32::MIN
    } else {
        p as i32
    }
}

/// Saturating `i32` addition, computed exactly through `i64`.
pub fn saturating_add_i32(a: i32, b: i32) -> (r: i32)
    ensures
        r == sat_add(a, b),
{
    let s: i64 = (a as i64) + (b as i64);
    if s > i32::MAX as i64 {
        i32::MAX
    } else if s < i32::MIN as i64 {
        i32::MIN
    } else {
        s as i32
    }
}

} // verus!
