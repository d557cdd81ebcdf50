//! The broker pipeline run to completion in one process: validate the
//! request, partition it into work units, compute each unit's dot product,
//! and assemble the outcomes. Its contract is the meaning of the whole
//! operation: the returned matrix is the saturating matrix product, and an
//! invalid request is rejected with the validator's error.

use vstd::prelude::*;
use crate::assemble::{assemble, cell_matches, coords_in_range, coords_unique, UnitOutcome};
use crate::errors::MultError;
use crate::matrix::{col_seq, dot_spec, mat_cols, mat_rows, product_spec, Matrix};
use crate::partition::{covers_cell, is_partition, partition, unit_ok, WorkUnit};
use crate::partition::{lemma_partition_coords_complete, lemma_partition_coords_unique};
use crate::validate::{valid_request, validate_request, validation_error};
use crate::worker::dotproduct;

verus! {

/// Outcome `k2` is the successful dot product of unit `k2`.
spec fn outcome_of_unit(outcomes: Seq<UnitOutcome>, units: Seq<WorkUnit>, k2: int) -> bool {
    outcomes[k2] == (UnitOutcome::Success {
        row_index: units[k2].row_index,
        col_index: units[k2].col_index,
        value: dot_spec(units[k2].row_vector@, units[k2].col_vector@),
    })
}

/// Multiply two matrices through the work-unit pipeline.
///
/// A valid request yields exactly the saturating matrix product; an
/// invalid one is rejected with the validator's error and nothing is
/// computed.
pub fn multiply(left: &Matrix, right: &Matrix) -> (res: Result<Matrix, MultError>)
    ensures
        valid_request(left.deep_view(), right.deep_view()) ==> (res matches Ok(m)
            && m.deep_view() == product_spec(left.deep_view(), right.deep_view())),
        !valid_request(left.deep_view(), right.deep_view()) ==> res == Err::<Matrix, MultError>(
            validation_error(left.deep_view(), right.deep_view()),
        ),
{
    let ghost l = left.deep_view();
    let ghost r = right.deep_view();
    let dims = match validate_request(left, right) {
        Ok(d) => d,
        Err(e) => {
            return Err(e);
        },
    };
    let units = partition(left, right, &dims);
    let rows = dims.rows_left;
    let cols = dims.cols_right;
    let mut outcomes: Vec<UnitOutcome> = Vec::new();
    let mut k: usize = 0;
    while k < units.len()
        invariant
            valid_request(l, r),
            l == left.deep_view(),
            r == right.deep_view(),
            is_partition(units@, l, r),
            k <= units@.len(),
            outcomes@.len() == k,
            forall|k2: int| 0 <= k2 < k ==> #[trigger] outcome_of_unit(outcomes@, units@, k2),
        decreases units@.len() - k,
    {
        let u = &units[k];
        proof {
            assert(unit_ok(units@, k as int, l, r));
            assert(u.row_vector@.len() == mat_cols(l));
            assert(u.col_vector@.len() == mat_rows(r));
        }
        let ghost outcomes0 = outcomes@;
        match dotproduct(&u.row_vector, &u.col_vector) {
            Ok(v) => {
                outcomes.push(
                    UnitOutcome::Success { row_index: u.row_index, col_index: u.col_index, value: v },
                );
            },
            Err(e) => {
                proof {
                    assert(false);
                }
                return Err(e);
            },
        }
        proof {
            assert forall|k2: int| 0 <= k2 < k + 1 implies #[trigger] outcome_of_unit(
                outcomes@,
                units@,
                k2,
            ) by {
                if k2 < k {
                    assert(outcome_of_unit(outcomes0, units@, k2));
                    assert(outcomes@[k2] == outcomes0[k2]);
                }
            }
        }
        k += 1;
    }
    proof {
        lemma_partition_coords_unique(units@, l, r);
        assert forall|k2: int| 0 <= k2 < outcomes@.len() implies 0 <= crate::assemble::outcome_row(
            #[trigger] outcomes@[k2],
        ) < rows as int && 0 <= crate::assemble::outcome_col(outcomes@[k2]) < cols as int by {
            assert(outcome_of_unit(outcomes@, units@, k2));
            assert(unit_ok(units@, k2, l, r));
        }
        assert forall|k1: int, k2: int|
            #![trigger outcomes@[k1], outcomes@[k2]]
            0 <= k1 < outcomes@.len() && 0 <= k2 < outcomes@.len() && k1 != k2 implies !(
        crate::assemble::outcome_row(outcomes@[k1]) == crate::assemble::outcome_row(outcomes@[k2])
            && crate::assemble::outcome_col(outcomes@[k1]) == crate::assemble::outcome_col(
            outcomes@[k2],
        )) by {
            assert(outcome_of_unit(outcomes@, units@, k1));
            assert(outcome_of_unit(outcomes@, units@, k2));
        }
        assert(coords_in_range(outcomes@, rows as int, cols as int));
        assert(coords_unique(outcomes@));
        assert forall|k2: int| 0 <= k2 < outcomes@.len() implies crate::assemble::is_success(
            #[trigger] outcomes@[k2],
        ) by {
            assert(outcome_of_unit(outcomes@, units@, k2));
        }
        assert(crate::assemble::all_success(outcomes@));
    }
    let ghost outs = outcomes@;
    let ghost all_units = units@;
    match assemble(rows, cols, outcomes) {
        Ok(m) => {
            proof {
                lemma_partition_coords_complete(all_units, l, r);
                let mv = m.deep_view();
                let prod = product_spec(l, r);
                assert forall|i: int| 0 <= i < mv.len() implies mv[i] == prod[i] by {
                    assert forall|j: int| 0 <= j < cols as int implies mv[i][j] == dot_spec(
                        l[i],
                        col_seq(r, j),
                    ) by {
                        assert(covers_cell(all_units, i, j));
                        let k2 = choose|k2: int|
                            0 <= k2 < all_units.len() && (#[trigger] all_units[k2]).row_index == i
                                && all_units[k2].col_index == j;
                        assert(unit_ok(all_units, k2, l, r));
                        assert(outcome_of_unit(outs, all_units, k2));
                        assert(cell_matches(mv, outs[k2]));
                    }
                    assert(mv[i] =~= prod[i]);
                }
                assert(mv =~= prod);
            }
            Ok(m)
        },
        Err(e) => {
            proof {
                assert(false);
            }
            Err(e)
        },
    }
}

/// An incoming multiplication request: the two matrices to multiply.
#[derive(Debug, PartialEq, Eq)]
pub struct MatMultRequest {
    pub left: Matrix,
    pub right: Matrix,
}

/// Serve one multiplication request: the compute part of the broker's
/// network entry point.
pub fn multiply_request(req: &MatMultRequest) -> (res: Result<Matrix, MultError>)
    ensures
        valid_request(req.left.deep_view(), req.right.deep_view()) ==> (res matches Ok(m)
            && m.deep_view() == product_spec(req.left.deep_view(), req.right.deep_view())),
        !valid_request(req.left.deep_view(), req.right.deep_view()) ==> res == Err::<
            Matrix,
            MultError,
        >(validation_error(req.left.deep_view(), req.right.deep_view())),
{
    multiply(&req.left, &req.right)
}

/// A dimension mismatch is always rejected, whatever the shapes: when the
/// column count of `left` differs from the row count of `right`, the
/// request is invalid, and the rejection is the dimension mismatch itself
/// as soon as both matrices are non-empty — an empty matrix is reported as
/// a shape error first.
pub proof fn lemma_dimension_mismatch_rejected(l: Seq<Seq<i32>>, r: Seq<Seq<i32>>)
    requires
        mat_cols(l) != mat_rows(r),
    ensures
        !valid_request(l, r),
        l.len() > 0 && r.len() > 0 ==> (validation_error(l, r) matches
            MultError::DimensionMismatch { rows_left, cols_left, rows_right, cols_right }
            && rows_left == l.len() as usize && cols_left == mat_cols(l) as usize
            && rows_right == r.len() as usize && cols_right == mat_cols(r) as usize),
        (l.len() == 0 || r.len() == 0) ==> (validation_error(l, r) matches MultError::Shape {
            left_empty,
            right_empty,
        } && left_empty == (l.len() == 0) && right_empty == (r.len() == 0)),
{
}

} // verus!
