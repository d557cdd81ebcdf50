//! Round-robin selection of a worker endpoint. The cursor is a monotone
//! counter; the k-th selection over its lifetime picks endpoint
//! `k % endpoint_count`, whatever the interleaving of the units that draw
//! from it. The holder of the cursor serialises the increments, so no two
//! dispatches observe the same counter value.

use vstd::prelude::*;
use crate::assemble::UnitOutcome;
use crate::codec::result_body_value;
use crate::codec::parse_result_body;
use crate::errors::MultError;

verus! {

/// The shared dispatch counter: `count` selections have been made since
/// the cursor was created.
#[derive(Debug, PartialEq, Eq, Structural, Clone, Copy)]
pub struct RoundRobinCursor {
    pub count: u64,
}

impl RoundRobinCursor {
    /// A fresh cursor: nothing dispatched yet, the first selection picks
    /// endpoint 0.
    pub fn new() -> (c: Self)
        ensures
            c.count == 0,
    {
        RoundRobinCursor { count: 0 }
    }

    /// Select an endpoint for the next dispatch: the k-th call on a fresh
    /// cursor returns `k % endpoint_count` and advances the counter by
    /// exactly one, whether or not the call it serves later fails.
    pub fn select(&mut self, endpoint_count: usize) -> (idx: usize)
        requires
            endpoint_count >= 1,
            old(self).count < u64::MAX,
        ensures
            idx == old(self).count as int % endpoint_count as int,
            idx < endpoint_count,
            final(self).count == old(self).count + 1,
    {
        let idx = (self.count % (endpoint_count as u64)) as usize;
        self.count = self.count + 1;
        idx
    }
}

/// What came back from the remote call a unit was sent on, as plain
/// values: either the transport failed outright, or the worker answered
/// with a status code and a body.
#[derive(Debug, PartialEq, Eq)]
pub enum WorkerReply {
    TransportFailed { detail: String },
    Responded { status: u16, body: Vec<u8> },
}

/// Normalise the reply of one dispatched unit into its outcome.
///
/// A transport failure and a non-success status are terminal failures for
/// the unit, tagged with its coordinates and the endpoint it was routed
/// to; a success status yields the parsed scalar, or a decode failure if
/// the body is not a scalar-result object.
pub fn classify_reply(
    row_index: usize,
    col_index: usize,
    endpoint_index: usize,
    reply: WorkerReply,
) -> (o: UnitOutcome)
    ensures
        (reply matches WorkerReply::TransportFailed { detail } ==> o == (UnitOutcome::Failure {
            row_index,
            col_index,
            error: MultError::Transport { row_index, col_index, endpoint_index, detail },
        })),
        (reply matches WorkerReply::Responded { status, body } ==> (if !(200 <= status < 300) {
            o == (UnitOutcome::Failure {
                row_index,
                col_index,
                error: MultError::RemoteStatus {
                    row_index,
                    col_index,
                    endpoint_index,
                    status,
                    body,
                },
            })
        } else {
            match result_body_value(body@) {
                Some(v) => o == (UnitOutcome::Success { row_index, col_index, value: v }),
                None => o == (UnitOutcome::Failure {
                    row_index,
                    col_index,
                    error: MultError::Decode { row_index, col_index, endpoint_index },
                }),
            }
        })),
{
    match reply {
        WorkerReply::TransportFailed { detail } => UnitOutcome::Failure {
            row_index,
            col_index,
            error: MultError::Transport { row_index, col_index, endpoint_index, detail },
        },
        WorkerReply::Responded { status, body } => {
            if !(200 <= status && status < 300) {
                UnitOutcome::Failure {
                    row_index,
                    col_index,
                    error: MultError::RemoteStatus {
                        row_index,
                        col_index,
                        endpoint_index,
                        status,
                        body,
                    },
                }
            } else {
                match parse_result_body(&body) {
                    Some(v) => UnitOutcome::Success { row_index, col_index, value: v },
                    None => UnitOutcome::Failure {
                        row_index,
                        col_index,
                        error: MultError::Decode { row_index, col_index, endpoint_index },
                    },
                }
            }
        },
    }
}

/// Round-robin selection is a pure function of the sequence number: it
/// stays below the endpoint count and repeats with period
/// `endpoint_count`.
pub proof fn lemma_round_robin_cycle(k: int, endpoint_count: int)
    requires
        0 <= k,
        endpoint_count >= 1,
    ensures
        0 <= k % endpoint_count < endpoint_count,
        (k + endpoint_count) % endpoint_count == k % endpoint_count,
{
    vstd::arithmetic::div_mod::lemma_mod_bound(k, endpoint_count);
    vstd::arithmetic::div_mod::lemma_mod_add_multiples_vanish(k, endpoint_count);
}

} // verus!
