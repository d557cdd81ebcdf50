//! The failure taxonomy of the multiplication pipeline, and its mapping to
//! HTTP status classes at the two network boundaries.

use vstd::prelude::*;

verus! {

/// A structured failure of the multiplication pipeline.
///
/// The first three variants reject the request before any work unit is
/// made. The unit-level variants carry the coordinates of the failed output
/// cell and the index of the worker endpoint the unit was routed to.
#[derive(Debug, PartialEq, Eq)]
pub enum MultError {
    /// At least one input matrix has no rows.
    Shape { left_empty: bool, right_empty: bool },
    /// The column count of the left matrix does not equal the row count of
    /// the right one.
    DimensionMismatch { rows_left: usize, cols_left: usize, rows_right: usize, cols_right: usize },
    /// A row does not match the length of the first row of its matrix;
    /// `row_index` is the first offending row.
    RaggedMatrix { on_left: bool, row_index: usize, expected: usize, found: usize },
    /// The remote call to a worker could not be completed.
    Transport { row_index: usize, col_index: usize, endpoint_index: usize, detail: String },
    /// A worker answered with a non-success status; the response body is
    /// kept as it came off the wire.
    RemoteStatus { row_index: usize, col_index: usize, endpoint_index: usize, status: u16, body: Vec<u8> },
    /// A worker answered success, but the body did not parse as a scalar
    /// result.
    Decode { row_index: usize, col_index: usize, endpoint_index: usize },
    /// The row and column vectors of a unit have different lengths.
    LengthMismatch { row_len: usize, col_len: usize },
}

impl MultError {
    /// True of the errors that reject the request itself (the client's
    /// fault); false of failures of the dispatch fan-out, which the broker
    /// reports as its own failure on behalf of its dependencies.
    pub open spec fn is_request_fault(&self) -> bool {
        match *self {
            MultError::Shape { .. } => true,
            MultError::DimensionMismatch { .. } => true,
            MultError::RaggedMatrix { .. } => true,
            _ => false,
        }
    }

    /// HTTP status for the broker response: 400 for request-shape errors,
    /// 500 when the dispatch or the assembly failed.
    pub fn broker_status(&self) -> (s: u16)
        ensures
            s == if self.is_request_fault() { 400u16 } else { 500u16 },
    {
        match *self {
            MultError::Shape { .. } => 400,
            MultError::DimensionMismatch { .. } => 400,
            MultError::RaggedMatrix { .. } => 400,
            _ => 500,
        }
    }
}

/// The broker's boundary error: a formatted description of a failure,
/// handed to the rejection handler of the HTTP layer.
#[derive(Debug)]
pub struct AppError(pub String);

impl From<String> for AppError {
    fn from(s: String) -> (r: Self) {
        AppError(s)
    }
}

impl vstd::std_specs::convert::FromSpecImpl<String> for AppError {
    open spec fn obeys_from_spec() -> bool {
        true
    }

    open spec fn from_spec(s: String) -> Self {
        AppError(s)
    }
}

/// The worker's boundary error: the message of a rejected dot-product
/// request.
#[derive(Debug)]
pub struct WorkerError(pub String);

/// How a worker rejection is classified by the worker's HTTP layer.
#[derive(Debug, PartialEq, Eq, Clone, Copy)]
pub enum WorkerRejection {
    /// No route matched the request path.
    NotFound,
    /// The dot-product request itself was rejected (length mismatch).
    BadUnit,
    /// The route exists but not for this HTTP method.
    MethodNotAllowed,
    /// The request body was not of the advertised media type.
    UnsupportedMediaType,
    /// The request body could not be deserialized.
    InvalidRequestBody,
    /// Any rejection the worker does not recognise.
    Unhandled,
}

/// HTTP status the worker answers with for each kind of rejection.
pub fn worker_rejection_status(rej: &WorkerRejection) -> (s: u16)
    ensures
        s == (match *rej {
            WorkerRejection::NotFound => 404u16,
            WorkerRejection::BadUnit => 400u16,
            WorkerRejection::MethodNotAllowed => 405u16,
            WorkerRejection::UnsupportedMediaType => 415u16,
            WorkerRejection::InvalidRequestBody => 400u16,
            WorkerRejection::Unhandled => 500u16,
        }),
{
    match *rej {
        WorkerRejection::NotFound => 404,
        WorkerRejection::BadUnit => 400,
        WorkerRejection::MethodNotAllowed => 405,
        WorkerRejection::UnsupportedMediaType => 415,
        WorkerRejection::InvalidRequestBody => 400,
        WorkerRejection::Unhandled => 500,
    }
}

} // verus!
