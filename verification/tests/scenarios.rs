use matmult::assemble::{assemble, UnitOutcome};
use matmult::broker::{multiply, multiply_request, MatMultRequest};
use matmult::codec::encode_result;
use matmult::dispatch::{classify_reply, RoundRobinCursor, WorkerReply};
use matmult::errors::MultError;
use matmult::matrix::Matrix;
use matmult::partition::partition;
use matmult::validate::validate_request;
use matmult::worker::dotproduct;

/// Drive the distributed pipeline over mock workers: each unit is routed
/// round-robin; a reachable worker answers a success body computed from
/// the unit's vectors, an unreachable one fails at transport.
fn run_with_mock_workers(
    left: &Matrix,
    right: &Matrix,
    endpoint_count: usize,
    unreachable: Option<usize>,
) -> (Result<Matrix, MultError>, Vec<usize>) {
    let dims = match validate_request(left, right) {
        Ok(d) => d,
        Err(e) => return (Err(e), vec![]),
    };
    let units = partition(left, right, &dims);
    let mut cursor = RoundRobinCursor::new();
    let mut picks = Vec::new();
    let mut outcomes = Vec::new();
    for u in &units {
        let endpoint = cursor.select(endpoint_count);
        picks.push(endpoint);
        let reply = if unreachable == Some(endpoint) {
            WorkerReply::TransportFailed { detail: String::from("connection refused") }
        } else {
            let value = dotproduct(&u.row_vector, &u.col_vector).unwrap();
            WorkerReply::Responded { status: 200, body: encode_result(value) }
        };
        outcomes.push(classify_reply(u.row_index, u.col_index, endpoint, reply));
    }
    (assemble(dims.rows_left, dims.cols_right, outcomes), picks)
}

#[test]
fn multiply_two_by_two() {
    let left = vec![vec![1, 2], vec![3, 4]];
    let right = vec![vec![5, 6], vec![7, 8]];
    assert_eq!(multiply(&left, &right), Ok(vec![vec![19, 22], vec![43, 50]]));
}

#[test]
fn multiply_rectangular() {
    let left = vec![vec![1, 2, 3], vec![4, 5, 6]];
    let right = vec![vec![7, 8], vec![9, 10], vec![11, 12]];
    assert_eq!(multiply(&left, &right), Ok(vec![vec![58, 64], vec![139, 154]]));
}

#[test]
fn multiply_matches_reference_product() {
    let left = vec![vec![2, -3, 5, 1], vec![0, 4, -1, 7], vec![6, 6, 6, 6]];
    let right = vec![
        vec![1, 0, 2],
        vec![-2, 3, 1],
        vec![4, 4, 0],
        vec![0, -5, 5],
    ];
    let result = multiply(&left, &right).unwrap();
    let mut expected = vec![vec![0i64; 3]; 3];
    for i in 0..3 {
        for j in 0..3 {
            for k in 0..4 {
                expected[i][j] += left[i][k] as i64 * right[k][j] as i64;
            }
        }
    }
    for i in 0..3 {
        for j in 0..3 {
            assert_eq!(result[i][j] as i64, expected[i][j]);
        }
    }
}

#[test]
fn multiply_rejects_dimension_mismatch() {
    let left = vec![vec![1, 2, 3], vec![4, 5, 6]];
    let right = vec![vec![1, 2], vec![3, 4]];
    assert_eq!(
        multiply(&left, &right),
        Err(MultError::DimensionMismatch {
            rows_left: 2,
            cols_left: 3,
            rows_right: 2,
            cols_right: 2,
        })
    );
}

#[test]
fn multiply_rejects_empty() {
    let empty: Matrix = vec![];
    let some = vec![vec![1]];
    assert_eq!(
        multiply(&empty, &some),
        Err(MultError::Shape { left_empty: true, right_empty: false })
    );
    assert_eq!(
        multiply(&some, &empty),
        Err(MultError::Shape { left_empty: false, right_empty: true })
    );
}

#[test]
fn multiply_rejects_ragged() {
    let left = vec![vec![1, 2], vec![3]];
    let right = vec![vec![1], vec![2]];
    assert_eq!(
        multiply(&left, &right),
        Err(MultError::RaggedMatrix { on_left: true, row_index: 1, expected: 2, found: 1 })
    );
}

#[test]
fn request_entry_point_multiplies() {
    let req = MatMultRequest {
        left: vec![vec![1, 2], vec![3, 4]],
        right: vec![vec![5, 6], vec![7, 8]],
    };
    assert_eq!(multiply_request(&req), Ok(vec![vec![19, 22], vec![43, 50]]));
}

#[test]
fn distributed_two_workers_round_robin() {
    let left = vec![vec![1, 2], vec![3, 4]];
    let right = vec![vec![5, 6], vec![7, 8]];
    let (result, picks) = run_with_mock_workers(&left, &right, 2, None);
    assert_eq!(result, Ok(vec![vec![19, 22], vec![43, 50]]));
    assert_eq!(picks, vec![0, 1, 0, 1]);
}

#[test]
fn distributed_one_worker_unreachable() {
    let left = vec![vec![1, 2], vec![3, 4]];
    let right = vec![vec![5, 6], vec![7, 8]];
    let (result, picks) = run_with_mock_workers(&left, &right, 2, Some(1));
    assert_eq!(picks, vec![0, 1, 0, 1]);
    assert_eq!(
        result,
        Err(MultError::Transport {
            row_index: 0,
            col_index: 1,
            endpoint_index: 1,
            detail: String::from("connection refused"),
        })
    );
}

#[test]
fn distributed_bad_status_fails_the_unit() {
    let left = vec![vec![1]];
    let right = vec![vec![2]];
    let dims = validate_request(&left, &right).unwrap();
    let units = partition(&left, &right, &dims);
    let reply = WorkerReply::Responded { status: 503, body: b"overloaded".to_vec() };
    let outcome = classify_reply(units[0].row_index, units[0].col_index, 0, reply);
    let outcomes = vec![outcome];
    assert_eq!(
        assemble(dims.rows_left, dims.cols_right, outcomes),
        Err(MultError::RemoteStatus {
            row_index: 0,
            col_index: 0,
            endpoint_index: 0,
            status: 503,
            body: b"overloaded".to_vec(),
        })
    );
}

#[test]
fn distributed_undecodable_body_fails_the_unit() {
    let outcome = classify_reply(
        0,
        0,
        1,
        WorkerReply::Responded { status: 200, body: b"not json".to_vec() },
    );
    assert_eq!(
        outcome,
        UnitOutcome::Failure {
            row_index: 0,
            col_index: 0,
            error: MultError::Decode { row_index: 0, col_index: 0, endpoint_index: 1 },
        }
    );
}

#[test]
fn distributed_success_body_parses() {
    let outcome = classify_reply(
        1,
        0,
        0,
        WorkerReply::Responded { status: 200, body: b"{\"result\":-5}".to_vec() },
    );
    assert_eq!(outcome, UnitOutcome::Success { row_index: 1, col_index: 0, value: -5 });
}
