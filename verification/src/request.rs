//! Requests, as the plain values that routing reads.

use crate::method::Method;
use vstd::prelude::*;

verus! {

/// What routing reads of a request: the method, the path of the target, and
/// the value of the `Content-Type` header where there is one. The body stays
/// with the caller until a handler asks for it.
#[derive(Debug)]
pub struct Request {
    pub method: Method,
    pub path: String,
    pub content_type: Option<String>,
}

/// What a request holds.
pub struct RequestView {
    pub method: Seq<char>,
    pub path: Seq<char>,
    pub content_type: Option<Seq<char>>,
}

impl View for Request {
    type V = RequestView;

    open spec fn view(&self) -> RequestView {
        RequestView {
            method: self.method@,
            path: self.path@,
            content_type: self.content_type.deep_view(),
        }
    }
}

} // verus!
