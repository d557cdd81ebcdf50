//! Request validation: a multiplication request is accepted only when both
//! matrices are non-empty and rectangular and the inner dimensions agree;
//! the validator hands the four dimensions to the rest of the pipeline.

use vstd::prelude::*;
use crate::errors::MultError;
use crate::matrix::{is_rectangular, mat_cols, mat_rows, Matrix};

verus! {

/// The four dimensions of a validated request.
#[derive(Debug, PartialEq, Eq, Structural, Clone, Copy)]
pub struct Dims {
    pub rows_left: usize,
    pub cols_left: usize,
    pub rows_right: usize,
    pub cols_right: usize,
}

/// A request that reaches partitioning: both matrices non-empty and
/// rectangular, and the column count of the left matrix equal to the row
/// count of the right one.
pub open spec fn valid_request(l: Seq<Seq<i32>>, r: Seq<Seq<i32>>) -> bool {
    &&& l.len() > 0
    &&& r.len() > 0
    &&& is_rectangular(l)
    &&& is_rectangular(r)
    &&& mat_cols(l) == mat_rows(r)
}

/// Row `i` is the first row whose length differs from the first row's.
pub open spec fn first_ragged_row(m: Seq<Seq<i32>>, i: int) -> bool {
    &&& 0 <= i < m.len()
    &&& m[i].len() != mat_cols(m)
    &&& forall|i2: int| 0 <= i2 < i ==> (#[trigger] m[i2].len()) == mat_cols(m)
}

/// Two first ragged rows are the same row.
pub proof fn lemma_first_ragged_row_unique(m: Seq<Seq<i32>>, a: int, b: int)
    requires
        first_ragged_row(m, a),
        first_ragged_row(m, b),
    ensures
        a == b,
{
    if a < b {
        assert(m[a].len() == mat_cols(m));
    }
    if b < a {
        assert(m[b].len() == mat_cols(m));
    }
}

/// The error an invalid request is rejected with: emptiness is reported
/// first, then the dimension mismatch (dimensions read from the first
/// rows), then the first ragged row, the left matrix checked before the
/// right one.
pub open spec fn validation_error(l: Seq<Seq<i32>>, r: Seq<Seq<i32>>) -> MultError
    recommends
        !valid_request(l, r),
{
    if l.len() == 0 || r.len() == 0 {
        MultError::Shape { left_empty: l.len() == 0, right_empty: r.len() == 0 }
    } else if mat_cols(l) != mat_rows(r) {
        MultError::DimensionMismatch {
            rows_left: l.len() as usize,
            cols_left: mat_cols(l) as usize,
            rows_right: r.len() as usize,
            cols_right: mat_cols(r) as usize,
        }
    } else if !is_rectangular(l) {
        let i = choose|i: int| first_ragged_row(l, i);
        MultError::RaggedMatrix {
            on_left: true,
            row_index: i as usize,
            expected: mat_cols(l) as usize,
            found: l[i].len() as usize,
        }
    } else {
        let i = choose|i: int| first_ragged_row(r, i);
        MultError::RaggedMatrix {
            on_left: false,
            row_index: i as usize,
            expected: mat_cols(r) as usize,
            found: r[i].len() as usize,
        }
    }
}

/// Check that every row of `m` has the length of the first one, reporting
/// the first offending row.
fn check_rectangular(m: &Matrix) -> (r: Result<(), (usize, usize)>)
    requires
        m@.len() > 0,
    ensures
        is_rectangular(m.deep_view()) <==> r is Ok,
        r matches Err((i, found)) ==> first_ragged_row(m.deep_view(), i as int)
            && found == m.deep_view()[i as int].len(),
{
    let cols = m[0].len();
    let mut i: usize = 1;
    proof {
        assert(m.deep_view()[0] == m@[0]@);
        assert(mat_cols(m.deep_view()) == cols);
    }
    while i < m.len()
        invariant
            m@.len() > 0,
            1 <= i <= m@.len(),
            cols == mat_cols(m.deep_view()),
            forall|i2: int| 0 <= i2 < i ==> (#[trigger] m.deep_view()[i2].len()) == cols,
        decreases m@.len() - i,
    {
        proof {
            assert(m.deep_view()[i as int] == m@[i as int]@);
        }
        if m[i].len() != cols {
            return Err((i, m[i].len()));
        }
        i += 1;
    }
    Ok(())
}

/// Validate a multiplication request.
///
/// Fails with `Shape` if either matrix has no rows, then with
/// `DimensionMismatch` if the column count of the left matrix (read from
/// its first row) differs from the row count of the right one, then with
/// `RaggedMatrix` if some row of either matrix — the left one checked
/// first — differs in length from the first row. Otherwise returns the
/// four dimensions.
pub fn validate_request(left: &Matrix, right: &Matrix) -> (r: Result<Dims, MultError>)
    ensures
        valid_request(left.deep_view(), right.deep_view()) ==> r == Ok::<Dims, MultError>(
            Dims {
                rows_left: left.len(),
                cols_left: left[0].len(),
                rows_right: right.len(),
                cols_right: right[0].len(),
            },
        ),
        !valid_request(left.deep_view(), right.deep_view()) ==> r == Err::<Dims, MultError>(
            validation_error(left.deep_view(), right.deep_view()),
        ),
{
    if left.len() == 0 || right.len() == 0 {
        return Err(MultError::Shape { left_empty: left.len() == 0, right_empty: right.len() == 0 });
    }
    let rows_left = left.len();
    let cols_left = left[0].len();
    let rows_right = right.len();
    let cols_right = right[0].len();
    proof {
        assert(left.deep_view()[0] == left@[0]@);
        assert(right.deep_view()[0] == right@[0]@);
    }
    if cols_left != rows_right {
        return Err(MultError::DimensionMismatch { rows_left, cols_left, rows_right, cols_right });
    }
    if let Err((i, found)) = check_rectangular(left) {
        proof {
            let c = choose|i2: int| first_ragged_row(left.deep_view(), i2);
            lemma_first_ragged_row_unique(left.deep_view(), c, i as int);
        }
        return Err(MultError::RaggedMatrix {
            on_left: true,
            row_index: i,
            expected: cols_left,
            found,
        });
    }
    if let Err((i, found)) = check_rectangular(right) {
        proof {
            let c = choose|i2: int| first_ragged_row(right.deep_view(), i2);
            lemma_first_ragged_row_unique(right.deep_view(), c, i as int);
        }
        return Err(MultError::RaggedMatrix {
            on_left: false,
            row_index: i,
            expected: cols_right,
            found,
        });
    }
    Ok(Dims { rows_left, cols_left, rows_right, cols_right })
}

} // verus!
