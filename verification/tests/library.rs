use matmult::assemble::{assemble, UnitOutcome};
use matmult::codec::{encode_payload, encode_result, parse_result_body};
use matmult::dispatch::RoundRobinCursor;
use matmult::errors::{worker_rejection_status, MultError, WorkerRejection};
use matmult::partition::partition;
use matmult::validate::{validate_request, Dims};
use matmult::worker::{calculate_dot_product, dotproduct, DotProductPayload};

#[test]
fn dotproduct_basic() {
    assert_eq!(dotproduct(&vec![1, 2, 3], &vec![4, 5, 6]), Ok(32));
}

#[test]
fn dotproduct_empty() {
    assert_eq!(dotproduct(&vec![], &vec![]), Ok(0));
}

#[test]
fn dotproduct_length_mismatch() {
    assert_eq!(
        dotproduct(&vec![1, 2, 3], &vec![4, 5]),
        Err(MultError::LengthMismatch { row_len: 3, col_len: 2 })
    );
}

#[test]
fn dotproduct_saturates_at_max() {
    assert_eq!(dotproduct(&vec![i32::MAX, i32::MAX], &vec![1, 1]), Ok(i32::MAX));
    assert_eq!(dotproduct(&vec![i32::MAX], &vec![2]), Ok(i32::MAX));
}

#[test]
fn dotproduct_saturates_at_min() {
    assert_eq!(dotproduct(&vec![i32::MIN], &vec![2]), Ok(i32::MIN));
    assert_eq!(dotproduct(&vec![i32::MIN, i32::MIN], &vec![1, 1]), Ok(i32::MIN));
}

#[test]
fn worker_handles_payload() {
    let payload = DotProductPayload { row: vec![1, 2, 3], col: vec![4, 5, 6] };
    let resp = calculate_dot_product(&payload).unwrap();
    assert_eq!(resp.result, 32);
}

#[test]
fn worker_rejects_length_mismatch() {
    let payload = DotProductPayload { row: vec![1, 2], col: vec![4] };
    let err = calculate_dot_product(&payload).unwrap_err();
    assert_eq!(err.0, "Row and column vectors must have the same length.");
}

#[test]
fn validate_accepts_compatible() {
    let left = vec![vec![1, 2, 3], vec![4, 5, 6]];
    let right = vec![vec![7, 8], vec![9, 10], vec![11, 12]];
    assert_eq!(
        validate_request(&left, &right),
        Ok(Dims { rows_left: 2, cols_left: 3, rows_right: 3, cols_right: 2 })
    );
}

#[test]
fn validate_rejects_empty() {
    let empty: Vec<Vec<i32>> = vec![];
    let some = vec![vec![1]];
    assert_eq!(
        validate_request(&empty, &some),
        Err(MultError::Shape { left_empty: true, right_empty: false })
    );
    assert_eq!(
        validate_request(&some, &empty),
        Err(MultError::Shape { left_empty: false, right_empty: true })
    );
    assert_eq!(
        validate_request(&empty, &empty),
        Err(MultError::Shape { left_empty: true, right_empty: true })
    );
}

#[test]
fn validate_rejects_dimension_mismatch() {
    let left = vec![vec![1, 2, 3], vec![4, 5, 6]];
    let right = vec![vec![1, 2], vec![3, 4]];
    assert_eq!(
        validate_request(&left, &right),
        Err(MultError::DimensionMismatch {
            rows_left: 2,
            cols_left: 3,
            rows_right: 2,
            cols_right: 2,
        })
    );
}

#[test]
fn validate_rejects_ragged_left() {
    let left = vec![vec![1, 2], vec![3]];
    let right = vec![vec![1], vec![2]];
    assert_eq!(
        validate_request(&left, &right),
        Err(MultError::RaggedMatrix { on_left: true, row_index: 1, expected: 2, found: 1 })
    );
}

#[test]
fn validate_rejects_ragged_right() {
    let left = vec![vec![1, 2], vec![3, 4]];
    let right = vec![vec![1, 2], vec![3, 4, 5]];
    assert_eq!(
        validate_request(&left, &right),
        Err(MultError::RaggedMatrix { on_left: false, row_index: 1, expected: 2, found: 3 })
    );
}

#[test]
fn partition_row_major_units() {
    let left = vec![vec![1, 2, 3], vec![4, 5, 6]];
    let right = vec![vec![7, 8], vec![9, 10], vec![11, 12]];
    let dims = validate_request(&left, &right).unwrap();
    let units = partition(&left, &right, &dims);
    assert_eq!(units.len(), 4);
    let expected = [
        (0usize, 0usize, vec![1, 2, 3], vec![7, 9, 11]),
        (0, 1, vec![1, 2, 3], vec![8, 10, 12]),
        (1, 0, vec![4, 5, 6], vec![7, 9, 11]),
        (1, 1, vec![4, 5, 6], vec![8, 10, 12]),
    ];
    for (k, (i, j, row, col)) in expected.iter().enumerate() {
        assert_eq!(units[k].row_index, *i);
        assert_eq!(units[k].col_index, *j);
        assert_eq!(&units[k].row_vector, row);
        assert_eq!(&units[k].col_vector, col);
    }
}

#[test]
fn partition_covers_every_cell_once() {
    let left = vec![vec![1], vec![2], vec![3]];
    let right = vec![vec![4, 5]];
    let dims = validate_request(&left, &right).unwrap();
    let units = partition(&left, &right, &dims);
    assert_eq!(units.len(), 6);
    let mut seen = vec![vec![0u32; 2]; 3];
    for u in &units {
        seen[u.row_index][u.col_index] += 1;
    }
    for row in &seen {
        for count in row {
            assert_eq!(*count, 1);
        }
    }
}

#[test]
fn cursor_selects_by_sequence_number() {
    let mut cursor = RoundRobinCursor::new();
    let picks: Vec<usize> = (0..6).map(|_| cursor.select(2)).collect();
    assert_eq!(picks, vec![0, 1, 0, 1, 0, 1]);
    assert_eq!(cursor.count, 6);

    let mut cursor = RoundRobinCursor::new();
    let picks: Vec<usize> = (0..7).map(|_| cursor.select(3)).collect();
    assert_eq!(picks, vec![0, 1, 2, 0, 1, 2, 0]);
}

#[test]
fn cursor_advances_on_every_selection() {
    let mut cursor = RoundRobinCursor::new();
    cursor.select(1);
    cursor.select(1);
    assert_eq!(cursor.count, 2);
}

#[test]
fn broker_status_classes() {
    assert_eq!(MultError::Shape { left_empty: true, right_empty: false }.broker_status(), 400);
    assert_eq!(
        MultError::DimensionMismatch { rows_left: 1, cols_left: 1, rows_right: 2, cols_right: 2 }
            .broker_status(),
        400
    );
    assert_eq!(
        MultError::RaggedMatrix { on_left: true, row_index: 1, expected: 2, found: 3 }
            .broker_status(),
        400
    );
    assert_eq!(
        MultError::Transport {
            row_index: 0,
            col_index: 0,
            endpoint_index: 0,
            detail: String::from("connection refused"),
        }
        .broker_status(),
        500
    );
    assert_eq!(
        MultError::RemoteStatus {
            row_index: 0,
            col_index: 0,
            endpoint_index: 0,
            status: 503,
            body: vec![],
        }
        .broker_status(),
        500
    );
    assert_eq!(
        MultError::Decode { row_index: 0, col_index: 0, endpoint_index: 0 }.broker_status(),
        500
    );
    assert_eq!(MultError::LengthMismatch { row_len: 1, col_len: 2 }.broker_status(), 500);
}

#[test]
fn worker_rejection_statuses() {
    assert_eq!(worker_rejection_status(&WorkerRejection::NotFound), 404);
    assert_eq!(worker_rejection_status(&WorkerRejection::BadUnit), 400);
    assert_eq!(worker_rejection_status(&WorkerRejection::MethodNotAllowed), 405);
    assert_eq!(worker_rejection_status(&WorkerRejection::UnsupportedMediaType), 415);
    assert_eq!(worker_rejection_status(&WorkerRejection::InvalidRequestBody), 400);
    assert_eq!(worker_rejection_status(&WorkerRejection::Unhandled), 500);
}

#[test]
fn parse_accepts_plain_body() {
    assert_eq!(parse_result_body(&b"{\"result\":42}".to_vec()), Some(42));
    assert_eq!(parse_result_body(&b"{\"result\":0}".to_vec()), Some(0));
    assert_eq!(parse_result_body(&b"{\"result\":-7}".to_vec()), Some(-7));
}

#[test]
fn parse_accepts_whitespace() {
    assert_eq!(parse_result_body(&b" {\t\"result\" :\n 123 } ".to_vec()), Some(123));
}

#[test]
fn parse_accepts_extreme_values() {
    assert_eq!(parse_result_body(&b"{\"result\":2147483647}".to_vec()), Some(i32::MAX));
    assert_eq!(parse_result_body(&b"{\"result\":-2147483648}".to_vec()), Some(i32::MIN));
}

#[test]
fn parse_rejects_out_of_range() {
    assert_eq!(parse_result_body(&b"{\"result\":2147483648}".to_vec()), None);
    assert_eq!(parse_result_body(&b"{\"result\":-2147483649}".to_vec()), None);
    assert_eq!(parse_result_body(&b"{\"result\":99999999999999999999}".to_vec()), None);
}

#[test]
fn parse_rejects_malformed() {
    assert_eq!(parse_result_body(&b"".to_vec()), None);
    assert_eq!(parse_result_body(&b"{}".to_vec()), None);
    assert_eq!(parse_result_body(&b"{\"result\":}".to_vec()), None);
    assert_eq!(parse_result_body(&b"{\"result\":-}".to_vec()), None);
    assert_eq!(parse_result_body(&b"{\"outcome\":1}".to_vec()), None);
    assert_eq!(parse_result_body(&b"{\"result\":007}".to_vec()), None);
    assert_eq!(parse_result_body(&b"{\"result\":1".to_vec()), None);
    assert_eq!(parse_result_body(&b"{\"result\":1}x".to_vec()), None);
    assert_eq!(parse_result_body(&b"[1]".to_vec()), None);
}

#[test]
fn encode_payload_canonical() {
    let body = encode_payload(&vec![1, -2], &vec![30]);
    assert_eq!(body, b"{\"row\":[1,-2],\"col\":[30]}".to_vec());
    let body = encode_payload(&vec![], &vec![]);
    assert_eq!(body, b"{\"row\":[],\"col\":[]}".to_vec());
}

#[test]
fn encode_result_canonical() {
    assert_eq!(encode_result(0), b"{\"result\":0}".to_vec());
    assert_eq!(encode_result(-123), b"{\"result\":-123}".to_vec());
    assert_eq!(encode_result(i32::MIN), b"{\"result\":-2147483648}".to_vec());
}

#[test]
fn encode_then_parse_round_trip() {
    for v in [0, 1, -1, 7, 10, -10, 1234567, i32::MAX, i32::MIN] {
        assert_eq!(parse_result_body(&encode_result(v)), Some(v));
    }
}

#[test]
fn assemble_fills_in_any_order() {
    let outcomes = vec![
        UnitOutcome::Success { row_index: 1, col_index: 1, value: 50 },
        UnitOutcome::Success { row_index: 0, col_index: 0, value: 19 },
        UnitOutcome::Success { row_index: 1, col_index: 0, value: 43 },
        UnitOutcome::Success { row_index: 0, col_index: 1, value: 22 },
    ];
    assert_eq!(assemble(2, 2, outcomes), Ok(vec![vec![19, 22], vec![43, 50]]));
}

#[test]
fn assemble_reports_first_failure() {
    let outcomes = vec![
        UnitOutcome::Success { row_index: 0, col_index: 0, value: 19 },
        UnitOutcome::Failure {
            row_index: 0,
            col_index: 1,
            error: MultError::Decode { row_index: 0, col_index: 1, endpoint_index: 1 },
        },
        UnitOutcome::Failure {
            row_index: 1,
            col_index: 0,
            error: MultError::Decode { row_index: 1, col_index: 0, endpoint_index: 0 },
        },
    ];
    assert_eq!(
        assemble(2, 2, outcomes),
        Err(MultError::Decode { row_index: 0, col_index: 1, endpoint_index: 1 })
    );
}

#[test]
fn assemble_zeroes_untouched_cells() {
    let outcomes = vec![UnitOutcome::Success { row_index: 1, col_index: 0, value: 9 }];
    assert_eq!(assemble(2, 2, outcomes), Ok(vec![vec![0, 0], vec![9, 0]]));
}
