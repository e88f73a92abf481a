//! Responses that report a failure.

use crate::response::{status_only, Response};
use vstd::prelude::*;

verus! {

/// An empty response with the given status.
pub fn from_status(status: u16) -> (r: Response)
    ensures
        r@ == status_only(status),
{
    let r = Response { status, headers: Vec::new(), body: Vec::new() };
    assert(r.headers.deep_view() =~= Seq::empty());
    r
}

} // verus!
