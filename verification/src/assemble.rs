//! The result assembler: given one outcome per output cell, in whatever
//! order the dispatch calls resolved, it either fills the whole result
//! matrix or reports the first failure it meets — a partially filled
//! matrix is never handed out.

use vstd::prelude::*;
use crate::errors::MultError;
use crate::matrix::{clone_row, Matrix};

verus! {

/// What one dispatched work unit came back as: the value of its output
/// cell, or a structured failure tagged with the cell's coordinates.
#[derive(Debug, PartialEq, Eq)]
pub enum UnitOutcome {
    Success { row_index: usize, col_index: usize, value: i32 },
    Failure { row_index: usize, col_index: usize, error: MultError },
}

/// The row coordinate an outcome is tagged with.
pub open spec fn outcome_row(o: UnitOutcome) -> int {
    match o {
        UnitOutcome::Success { row_index, .. } => row_index as int,
        UnitOutcome::Failure { row_index, .. } => row_index as int,
    }
}

/// The column coordinate an outcome is tagged with.
pub open spec fn outcome_col(o: UnitOutcome) -> int {
    match o {
        UnitOutcome::Success { col_index, .. } => col_index as int,
        UnitOutcome::Failure { col_index, .. } => col_index as int,
    }
}

/// The outcome is a success.
pub open spec fn is_success(o: UnitOutcome) -> bool {
    o matches UnitOutcome::Success { .. }
}

/// The value a successful outcome carries.
pub open spec fn success_value(o: UnitOutcome) -> i32 {
    match o {
        UnitOutcome::Success { value, .. } => value,
        UnitOutcome::Failure { .. } => vstd::pervasive::arbitrary(),
    }
}

/// The error a failed outcome carries.
pub open spec fn failure_error(o: UnitOutcome) -> MultError {
    match o {
        UnitOutcome::Failure { error, .. } => error,
        UnitOutcome::Success { .. } => vstd::pervasive::arbitrary(),
    }
}

/// Every outcome names a cell of the `rows x cols` output.
pub open spec fn coords_in_range(outs: Seq<UnitOutcome>, rows: int, cols: int) -> bool {
    forall|k: int|
        0 <= k < outs.len() ==> 0 <= outcome_row(#[trigger] outs[k]) < rows && 0 <= outcome_col(
            outs[k],
        ) < cols
}

/// No two outcomes name the same cell.
pub open spec fn coords_unique(outs: Seq<UnitOutcome>) -> bool {
    forall|k1: int, k2: int|
        #![trigger outs[k1], outs[k2]]
        0 <= k1 < outs.len() && 0 <= k2 < outs.len() && k1 != k2 ==> !(outcome_row(outs[k1])
            == outcome_row(outs[k2]) && outcome_col(outs[k1]) == outcome_col(outs[k2]))
}

/// Every outcome is a success.
pub open spec fn all_success(outs: Seq<UnitOutcome>) -> bool {
    forall|k: int| 0 <= k < outs.len() ==> is_success(#[trigger] outs[k])
}

/// Outcome `k` is the first failure in the order the outcomes were handed
/// over.
pub open spec fn is_first_failure(outs: Seq<UnitOutcome>, k: int) -> bool {
    &&& 0 <= k < outs.len()
    &&& !is_success(outs[k])
    &&& forall|k2: int| 0 <= k2 < k ==> is_success(#[trigger] outs[k2])
}

/// Cell of `m` named by the successful outcome `o` holds the value `o`
/// carries.
pub open spec fn cell_matches(m: Seq<Seq<i32>>, o: UnitOutcome) -> bool {
    m[outcome_row(o)][outcome_col(o)] == success_value(o)
}

/// No outcome among `outs` names the cell `(i, j)`.
pub open spec fn cell_untouched(outs: Seq<UnitOutcome>, i: int, j: int) -> bool {
    forall|k: int|
        0 <= k < outs.len() ==> !(outcome_row(#[trigger] outs[k]) == i && outcome_col(outs[k])
            == j)
}

/// Overwrite one cell of a matrix.
fn set_cell(m: &mut Matrix, i: usize, j: usize, v: i32)
    requires
        i < old(m)@.len(),
        j < old(m).deep_view()[i as int].len(),
    ensures
        final(m).deep_view() == old(m).deep_view().update(
            i as int,
            old(m).deep_view()[i as int].update(j as int, v),
        ),
{
    proof {
        assert(old(m).deep_view()[i as int] == old(m)@[i as int]@);
    }
    let mut row = clone_row(&m[i]);
    row.set(j, v);
    m.set(i, row);
    proof {
        let pre = old(m).deep_view();
        let post = final(m).deep_view();
        let updated = pre.update(i as int, pre[i as int].update(j as int, v));
        assert forall|t: int| 0 <= t < post.len() implies post[t] == updated[t] by {
            assert(post[t] == final(m)@[t]@);
            if t != i as int {
                assert(final(m)@[t] == old(m)@[t]);
                assert(pre[t] == old(m)@[t]@);
            }
        }
        assert(post =~= updated);
    }
}

/// A `rows x cols` matrix of zeroes.
fn zero_matrix(rows: usize, cols: usize) -> (m: Matrix)
    ensures
        m.deep_view().len() == rows,
        forall|i: int| 0 <= i < rows ==> (#[trigger] m.deep_view()[i]).len() == cols,
        forall|i: int, j: int|
            #![trigger m.deep_view()[i][j]]
            0 <= i < rows && 0 <= j < cols ==> m.deep_view()[i][j] == 0,
{
    let mut m: Matrix = Vec::new();
    let mut i: usize = 0;
    while i < rows
        invariant
            i <= rows,
            m.deep_view().len() == i,
            forall|i2: int| 0 <= i2 < i ==> (#[trigger] m.deep_view()[i2]).len() == cols,
            forall|i2: int, j: int|
                #![trigger m.deep_view()[i2][j]]
                0 <= i2 < i && 0 <= j < cols ==> m.deep_view()[i2][j] == 0,
        decreases rows - i,
    {
        let mut row: Vec<i32> = Vec::new();
        let mut j: usize = 0;
        while j < cols
            invariant
                j <= cols,
                row@.len() == j,
                forall|j2: int| 0 <= j2 < j ==> row@[j2] == 0,
            decreases cols - j,
        {
            row.push(0);
            j += 1;
        }
        let ghost m0 = m@;
        let ghost dv0 = m.deep_view();
        m.push(row);
        proof {
            assert forall|i2: int| 0 <= i2 < i + 1 implies (#[trigger] m.deep_view()[i2]).len()
                == cols by {
                assert(m.deep_view()[i2] == m@[i2]@);
                if i2 < i {
                    assert(m@[i2] == m0[i2]);
                    assert(dv0[i2] == m0[i2]@);
                    assert(dv0[i2].len() == cols);
                }
            }
            assert forall|i2: int, j2: int|
                #![trigger m.deep_view()[i2][j2]]
                0 <= i2 < i + 1 && 0 <= j2 < cols implies m.deep_view()[i2][j2] == 0 by {
                assert(m.deep_view()[i2] == m@[i2]@);
                if i2 < i {
                    assert(m@[i2] == m0[i2]);
                    assert(dv0[i2] == m0[i2]@);
                    assert(dv0[i2][j2] == 0);
                }
            }
        }
        i += 1;
    }
    m
}

/// Collect the outcomes of one request's work units.
///
/// The outcomes may come in any order; the caller guarantees that they
/// name distinct cells of the `rows x cols` output. If every outcome is a
/// success, each value is written to its cell, over a matrix initialised
/// to zero. If any outcome is a failure, the first one in the order given
/// is returned and no matrix — complete or partial — is handed out.
pub fn assemble(rows: usize, cols: usize, outcomes: Vec<UnitOutcome>) -> (res: Result<
    Matrix,
    MultError,
>)
    requires
        coords_in_range(outcomes@, rows as int, cols as int),
        coords_unique(outcomes@),
    ensures
        all_success(outcomes@) ==> (res matches Ok(m) && m.deep_view().len() == rows && (forall|
            i: int,
        | 0 <= i < rows ==> (#[trigger] m.deep_view()[i]).len() == cols) && (forall|k: int|
            0 <= k < outcomes@.len() ==> cell_matches(m.deep_view(), #[trigger] outcomes@[k])) && (
        forall|i: int, j: int|
            0 <= i < rows && 0 <= j < cols && #[trigger] cell_untouched(outcomes@, i, j)
                ==> m.deep_view()[i][j] == 0)),
        !all_success(outcomes@) ==> (res matches Err(e) && exists|k: int|
            #[trigger] is_first_failure(outcomes@, k) && e == failure_error(outcomes@[k])),
{
    let ghost outs = outcomes@;
    let mut remaining = outcomes;
    let mut k: usize = 0;
    while k < remaining.len()
        invariant
            outs == outcomes@,
            remaining@ == outs,
            k <= outs.len(),
            forall|k2: int| 0 <= k2 < k ==> is_success(#[trigger] outs[k2]),
        decreases outs.len() - k,
    {
        let failed = match &remaining[k] {
            UnitOutcome::Failure { .. } => true,
            UnitOutcome::Success { .. } => false,
        };
        if failed {
            proof {
                assert(is_first_failure(outs, k as int));
            }
            let o = remaining.swap_remove(k);
            proof {
                assert(o == outs[k as int]);
            }
            match o {
                UnitOutcome::Failure { error, .. } => {
                    proof {
                        assert(!is_success(outs[k as int]));
                        assert(!all_success(outs));
                        assert(failure_error(outs[k as int]) == error);
                        assert(exists|k2: int|
                            #[trigger] is_first_failure(outs, k2) && error == failure_error(
                                outs[k2],
                            ));
                    }
                    return Err(error);
                },
                UnitOutcome::Success { .. } => {
                    proof {
                        assert(false);
                    }
                },
            }
        }
        k += 1;
    }
    let mut result = zero_matrix(rows, cols);
    let mut k: usize = 0;
    while k < remaining.len()
        invariant
            outs == outcomes@,
            remaining@ == outs,
            all_success(outs),
            coords_in_range(outs, rows as int, cols as int),
            coords_unique(outs),
            k <= outs.len(),
            result.deep_view().len() == rows,
            forall|i: int| 0 <= i < rows ==> (#[trigger] result.deep_view()[i]).len() == cols,
            forall|k2: int|
                0 <= k2 < k ==> cell_matches(result.deep_view(), #[trigger] outs[k2]),
            forall|i: int, j: int|
                0 <= i < rows && 0 <= j < cols && #[trigger] cell_untouched(outs.take(k as int), i, j)
                    ==> result.deep_view()[i][j] == 0,
        decreases outs.len() - k,
    {
        let ghost before = result.deep_view();
        match &remaining[k] {
            UnitOutcome::Success { row_index, col_index, value } => {
                set_cell(&mut result, *row_index, *col_index, *value);
            },
            UnitOutcome::Failure { .. } => {
                proof {
                    assert(false);
                }
            },
        }
        proof {
            let ki = k as int;
            let ri = outcome_row(outs[ki]);
            let ci = outcome_col(outs[ki]);
            assert forall|k2: int|
                0 <= k2 < ki + 1 implies cell_matches(result.deep_view(), #[trigger] outs[k2]) by {
                if k2 < ki {
                    // distinct coordinates: the write at (ri, ci) left cell k2 alone
                    assert(!(outcome_row(outs[k2]) == ri && outcome_col(outs[k2]) == ci));
                    assert(cell_matches(before, outs[k2]));
                }
            }
            assert forall|i: int, j: int|
                0 <= i < rows && 0 <= j < cols && #[trigger] cell_untouched(
                    outs.take(ki + 1),
                    i,
                    j,
                ) implies result.deep_view()[i][j] == 0 by {
                assert(outs.take(ki + 1)[ki] == outs[ki]);
                assert(!(ri == i && ci == j));
                assert forall|k2: int|
                    0 <= k2 < ki implies !(outcome_row(#[trigger] outs.take(ki)[k2]) == i
                    && outcome_col(outs.take(ki)[k2]) == j) by {
                    assert(outs.take(ki + 1)[k2] == outs.take(ki)[k2]);
                }
                assert(cell_untouched(outs.take(ki), i, j));
                assert(before[i][j] == 0);
            }
        }
        k += 1;
    }
    proof {
        assert(outs.take(outs.len() as int) =~= outs);
    }
    Ok(result)
}

} // verus!
