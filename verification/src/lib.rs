//! Shared library for the r3st S3-compatible server and its conformance suite:
//! the S3 error format, the listing model, the server state, and the report of a
//! conformance run.

use vstd::prelude::*;

pub mod error;
pub mod text;
pub mod runner;
pub mod model;
pub mod state;
pub mod handlers;
pub mod checks;

verus! {

/// Return a greeting for the given component name.
pub fn greeting(component: &str) -> (s: String)
    ensures
        s@ == "Hello from "@ + component@ + "!"@,
{
    let mut s = String::from_str("Hello from ");
    s.append(component);
    s.append("!");
    s
}

} // verus!
