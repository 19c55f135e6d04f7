use vstd::prelude::*;
use serde_json::Value;
use crate::json::{is_json_document, parse_payload};

verus! {

/// Why a fetch from the upstream provider produced no payload.
#[derive(Clone, Copy, Debug, PartialEq, Eq, Structural)]
pub enum FetchError {
    /// The provider answered with a status outside 2xx.
    UpstreamRejected(u16),
    /// The request did not complete.
    Transport,
    /// The body is not a JSON document.
    Malformed,
}

pub open spec fn is_success(status: u16) -> bool {
    200 <= status < 300
}

/// Accepts a 2xx status; any other is a rejection carrying the status.
pub fn check_status(status: u16) -> (r: Result<(), FetchError>)
    ensures
        r is Ok <==> is_success(status),
        !is_success(status) ==> r == Err::<(), FetchError>(FetchError::UpstreamRejected(status)),
{
    if 200 <= status && status < 300 {
        Ok(())
    } else {
        Err(FetchError::UpstreamRejected(status))
    }
}

/// The payload of a response: a rejected status is never parsed further;
/// a body that is no JSON document is malformed.
pub fn accept_response(status: u16, body: &str) -> (r: Result<Value, FetchError>)
    ensures
        !is_success(status) ==> r == Err::<Value, FetchError>(FetchError::UpstreamRejected(status)),
        is_success(status) ==> (r is Ok || r == Err::<Value, FetchError>(FetchError::Malformed)),
        is_success(status) ==> (r is Ok <==> is_json_document(body@)),
{
    check_status(status)?;
    match parse_payload(body) {
        Some(v) => Ok(v),
        None => Err(FetchError::Malformed),
    }
}

/// How long to wait, in milliseconds, before a call at `now`: until `gap`
/// has passed since the previous call, saturating at the largest `u64`.
pub open spec fn pacing_wait(last: Option<u64>, gap: u64, now: u64) -> int {
    match last {
        None => 0,
        Some(t) => {
            let due = t + gap - now;
            if due <= 0 {
                0
            } else if due > u64::MAX {
                u64::MAX as int
            } else {
                due
            }
        },
    }
}

/// Paces the calls of one endpoint family: each call waits until a fixed
/// gap has passed since the previous one.
#[derive(Clone, Copy, Debug)]
pub struct Pacer {
    pub min_gap_ms: u64,
    pub last_call_ms: Option<u64>,
}

impl Pacer {
    /// A pacer with no call made yet.
    pub fn new(min_gap_ms: u64) -> (r: Pacer)
        ensures
            r.min_gap_ms == min_gap_ms,
            r.last_call_ms is None,
    {
        Pacer { min_gap_ms, last_call_ms: None }
    }

    /// Milliseconds to wait before a call made at `now_ms`.
    pub fn wait_before(&self, now_ms: u64) -> (r: u64)
        ensures
            r as int == pacing_wait(self.last_call_ms, self.min_gap_ms, now_ms),
    {
        match self.last_call_ms {
            None => 0,
            Some(t) => {
                let due: i128 = t as i128 + self.min_gap_ms as i128 - now_ms as i128;
                if due <= 0 {
                    0
                } else if due > u64::MAX as i128 {
                    u64::MAX
                } else {
                    due as u64
                }
            },
        }
    }

    /// Records that a call was made at `at_ms`.
    pub fn record_call(&mut self, at_ms: u64)
        ensures
            final(self).last_call_ms == Some(at_ms),
            final(self).min_gap_ms == old(self).min_gap_ms,
    {
        self.last_call_ms = Some(at_ms);
    }
}

} // verus!
