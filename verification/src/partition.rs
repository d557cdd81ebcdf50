//! The partitioner: a validated request is decomposed into one
//! self-contained work unit per output cell, in row-major order — unit
//! `k` carries the coordinates `(k / cols, k % cols)`, a copy of that row
//! of the left matrix, and that column of the right one.

use vstd::prelude::*;
use vstd::arithmetic::div_mod::{lemma_fundamental_div_mod, lemma_fundamental_div_mod_converse};
use vstd::arithmetic::mul::lemma_mul_inequality;
use crate::matrix::{clone_row, col_seq, mat_cols, mat_rows, Matrix};
use crate::validate::{valid_request, Dims};

verus! {

/// One schedulable piece of the multiplication: the dot product for output
/// cell `(row_index, col_index)`, with the two vectors it needs extracted
/// so the unit can travel on its own.
#[derive(Debug, PartialEq, Eq)]
pub struct WorkUnit {
    pub row_index: usize,
    pub col_index: usize,
    pub row_vector: Vec<i32>,
    pub col_vector: Vec<i32>,
}

/// Unit `k` of the row-major partition: its coordinates are
/// `(k / cols, k % cols)` and its vectors are that row of `l` and that
/// column of `r`.
pub open spec fn unit_ok(units: Seq<WorkUnit>, k: int, l: Seq<Seq<i32>>, r: Seq<Seq<i32>>) -> bool {
    let cols = mat_cols(r);
    &&& units[k].row_index == k / cols
    &&& units[k].col_index == k % cols
    &&& units[k].row_index < mat_rows(l)
    &&& units[k].col_index < cols
    &&& units[k].row_vector@ == l[k / cols]
    &&& units[k].col_vector@ == col_seq(r, k % cols)
}

/// `units` is the row-major partition of the product of `l` and `r`: one
/// unit per output cell, row-major.
pub open spec fn is_partition(units: Seq<WorkUnit>, l: Seq<Seq<i32>>, r: Seq<Seq<i32>>) -> bool {
    &&& units.len() == mat_rows(l) * mat_cols(r)
    &&& forall|k: int| 0 <= k < units.len() ==> #[trigger] unit_ok(units, k, l, r)
}

/// Some unit carries the coordinates `(i, j)`.
pub open spec fn covers_cell(units: Seq<WorkUnit>, i: int, j: int) -> bool {
    exists|k: int|
        0 <= k < units.len() && (#[trigger] units[k]).row_index == i && units[k].col_index == j
}

/// Read the `j`-th column of `m` top to bottom.
fn read_column(m: &Matrix, j: usize) -> (c: Vec<i32>)
    requires
        forall|k: int| 0 <= k < m@.len() ==> j < (#[trigger] m.deep_view()[k]).len(),
    ensures
        c@ == col_seq(m.deep_view(), j as int),
{
    let mut c: Vec<i32> = Vec::new();
    let mut k: usize = 0;
    while k < m.len()
        invariant
            k <= m@.len(),
            forall|k2: int| 0 <= k2 < m@.len() ==> j < (#[trigger] m.deep_view()[k2]).len(),
            c@.len() == k,
            forall|t: int| 0 <= t < k ==> c@[t] == (#[trigger] m.deep_view()[t])[j as int],
        decreases m@.len() - k,
    {
        proof {
            assert(m.deep_view()[k as int] == m@[k as int]@);
        }
        c.push(m[k][j]);
        k += 1;
    }
    proof {
        assert(c@ =~= col_seq(m.deep_view(), j as int));
    }
    c
}

/// Decompose a validated request into its work units, one per output cell
/// in row-major order.
pub fn partition(left: &Matrix, right: &Matrix, dims: &Dims) -> (units: Vec<WorkUnit>)
    requires
        valid_request(left.deep_view(), right.deep_view()),
        dims.rows_left == mat_rows(left.deep_view()),
        dims.cols_right == mat_cols(right.deep_view()),
    ensures
        is_partition(units@, left.deep_view(), right.deep_view()),
{
    let ghost l = left.deep_view();
    let ghost r = right.deep_view();
    let rows = dims.rows_left;
    let cols = dims.cols_right;
    let mut units: Vec<WorkUnit> = Vec::new();
    let mut i: usize = 0;
    while i < rows
        invariant
            valid_request(l, r),
            l == left.deep_view(),
            r == right.deep_view(),
            rows == mat_rows(l),
            cols == mat_cols(r),
            i <= rows,
            units@.len() == i * cols,
            forall|k: int| 0 <= k < units@.len() ==> #[trigger] unit_ok(units@, k, l, r),
        decreases rows - i,
    {
        let mut j: usize = 0;
        while j < cols
            invariant
                valid_request(l, r),
                l == left.deep_view(),
                r == right.deep_view(),
                rows == mat_rows(l),
                cols == mat_cols(r),
                i < rows,
                j <= cols,
                units@.len() == i * cols + j,
                forall|k: int| 0 <= k < units@.len() ==> #[trigger] unit_ok(units@, k, l, r),
            decreases cols - j,
        {
            proof {
                assert(left.deep_view()[i as int] == left@[i as int]@);
                assert forall|k: int| 0 <= k < right@.len() implies j < (#[trigger] right.deep_view()[k]).len() by {
                    assert(right.deep_view()[k].len() == mat_cols(r));
                }
            }
            let row_vector = clone_row(&left[i]);
            let col_vector = read_column(right, j);
            let ghost units0 = units@;
            units.push(WorkUnit { row_index: i, col_index: j, row_vector, col_vector });
            proof {
                lemma_fundamental_div_mod_converse(i * cols + j, cols as int, i as int, j as int);
                assert forall|k: int| 0 <= k < units@.len() implies #[trigger] unit_ok(units@, k, l, r) by {
                    if k < units0.len() {
                        assert(unit_ok(units0, k, l, r));
                        assert(units@[k] == units0[k]);
                    }
                }
            }
            j += 1;
        }
        proof {
            assert((i + 1) * cols == i * cols + cols) by (nonlinear_arith);
        }
        i += 1;
    }
    units
}

/// The coordinates of a partition's units are unique: two different units
/// never name the same output cell.
pub proof fn lemma_partition_coords_unique(units: Seq<WorkUnit>, l: Seq<Seq<i32>>, r: Seq<Seq<i32>>)
    requires
        is_partition(units, l, r),
    ensures
        forall|k1: int, k2: int|
            #![trigger units[k1], units[k2]]
            0 <= k1 < units.len() && 0 <= k2 < units.len() && k1 != k2 ==> !(
            units[k1].row_index == units[k2].row_index && units[k1].col_index
                == units[k2].col_index),
{
    let cols = mat_cols(r);
    assert forall|k1: int, k2: int|
        #![trigger units[k1], units[k2]]
        0 <= k1 < units.len() && 0 <= k2 < units.len() && k1 != k2 implies !(units[k1].row_index
        == units[k2].row_index && units[k1].col_index == units[k2].col_index) by {
        assert(unit_ok(units, k1, l, r));
        assert(unit_ok(units, k2, l, r));
        lemma_fundamental_div_mod(k1, cols);
        lemma_fundamental_div_mod(k2, cols);
    }
}

/// The coordinates of a partition's units leave no gaps: every cell of the
/// `rows x cols` output is named by some unit.
pub proof fn lemma_partition_coords_complete(
    units: Seq<WorkUnit>,
    l: Seq<Seq<i32>>,
    r: Seq<Seq<i32>>,
)
    requires
        is_partition(units, l, r),
    ensures
        forall|i: int, j: int|
            0 <= i < mat_rows(l) && 0 <= j < mat_cols(r) ==> #[trigger] covers_cell(units, i, j),
{
    let rows = mat_rows(l);
    let cols = mat_cols(r);
    assert forall|i: int, j: int|
        0 <= i < rows && 0 <= j < cols implies #[trigger] covers_cell(units, i, j) by {
        let k = i * cols + j;
        lemma_fundamental_div_mod_converse(k, cols, i, j);
        lemma_mul_inequality(i, rows - 1, cols);
        assert((rows - 1) * cols + cols == rows * cols) by (nonlinear_arith);
        assert(0 <= k < units.len());
        assert(unit_ok(units, k, l, r));
        assert(units[k].row_index == i && units[k].col_index == j);
    }
}

} // verus!
