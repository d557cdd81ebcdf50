//! The worker side: the dot-product service. A worker receives a row and a
//! column vector, rejects them if their lengths differ, and otherwise
//! computes their saturating dot product.

use vstd::prelude::*;
use crate::errors::{MultError, WorkerError};
use crate::matrix::{dot_spec, saturating_add_i32, saturating_mul_i32};

verus! {

/// The body of a dot-product request: one row of the left matrix and one
/// column of the right one.
#[derive(Clone)]
pub struct DotProductPayload {
    pub row: Vec<i32>,
    pub col: Vec<i32>,
}

/// The body of a successful dot-product response.
#[derive(Debug, PartialEq, Eq, Clone, Copy)]
pub struct DotProductResponse {
    pub result: i32,
}

/// The saturating dot product of two equal-length vectors; a length
/// mismatch is reported, with both lengths, before anything is summed.
pub fn dotproduct(row: &Vec<i32>, col: &Vec<i32>) -> (r: Result<i32, MultError>)
    ensures
        row@.len() == col@.len() ==> r == Ok::<i32, MultError>(dot_spec(row@, col@)),
        row@.len() != col@.len() ==> r == Err::<i32, MultError>(
            MultError::LengthMismatch { row_len: row.len(), col_len: col.len() },
        ),
{
    let n = row.len();
    if n != col.len() {
        return Err(MultError::LengthMismatch { row_len: row.len(), col_len: col.len() });
    }
    let mut total: i32 = 0;
    let mut k: usize = 0;
    while k < n
        invariant
            n == row@.len(),
            n == col@.len(),
            k <= n,
            total == dot_spec(row@.take(k as int), col@.take(k as int)),
        decreases n - k,
    {
        total = saturating_add_i32(total, saturating_mul_i32(row[k], col[k]));
        proof {
            assert(row@.take(k + 1).drop_last() =~= row@.take(k as int));
            assert(col@.take(k + 1).drop_last() =~= col@.take(k as int));
            assert(row@.take(k + 1).last() == row@[k as int]);
            assert(col@.take(k + 1).last() == col@[k as int]);
        }
        k += 1;
    }
    proof {
        assert(row@.take(n as int) =~= row@);
        assert(col@.take(n as int) =~= col@);
    }
    Ok(total)
}

/// The worker's handling of one dot-product request: reject a length
/// mismatch with the worker's message, answer the saturating dot product
/// otherwise.
pub fn calculate_dot_product(payload: &DotProductPayload) -> (r: Result<
    DotProductResponse,
    WorkerError,
>)
    ensures
        payload.row@.len() == payload.col@.len() ==> (r matches Ok(resp)
            && resp.result == dot_spec(payload.row@, payload.col@)),
        payload.row@.len() != payload.col@.len() ==> (r matches Err(e)
            && e.0@ == "Row and column vectors must have the same length."@),
{
    if payload.row.len() != payload.col.len() {
        return Err(WorkerError("Row and column vectors must have the same length.".to_owned()));
    }
    match dotproduct(&payload.row, &payload.col) {
        Ok(total) => Ok(DotProductResponse { result: total }),
        Err(_) => {
            proof {
                assert(false);
            }
            Err(WorkerError(String::new()))
        },
    }
}

} // verus!
