//! Verified core of a desktop-bridge proxy pipeline: it serializes a
//! structured request to a JSON body, fixes the transport policy for the
//! outbound POST, and classifies the raw HTTP response into a success text
//! or a diagnosable failure.

pub mod json_text;
pub mod request;
pub mod encode;
pub mod decode;
pub mod classify;
pub mod outcome;
pub mod config;

use vstd::prelude::*;

verus! {

/// True exactly when an HTTP status code counts as success for the pipeline.
pub open spec fn spec_success_status(status: u16) -> bool {
    200 <= status < 300
}

/// Decides whether a raw HTTP status code is in the success range.
pub fn is_success_status(status: u16) -> (r: bool)
    ensures
        r == spec_success_status(status),
{
    200 <= status && status < 300
}

} // verus!
