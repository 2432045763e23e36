//! The decisions that the conformance checks take on what the endpoint answers.
use vstd::prelude::*;

verus! {

/// Whether an HTTP status is `200 OK`, which `GET /` must answer.
pub fn status_is_ok(status: u16) -> (ok: bool)
    ensures
        ok == (status == 200),
{
    status == 200
}

} // verus!
