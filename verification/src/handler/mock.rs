//! Canned responses.

use crate::config::MockRoute;
use crate::document::json_text;
use crate::method::{any, MethodFilter};
use crate::response;
use crate::response::{json_response, status_only, Response, ResponseView};
use vstd::prelude::*;

verus! {

/// Answers with the response that its route configures.
#[derive(Debug)]
pub struct MockHandler {
    pub config: MockRoute,
}

/// A mock route takes every method.
pub fn default_method_filter() -> (r: MethodFilter)
    ensures
        r == MethodFilter::MatchAny,
{
    any()
}

impl MockHandler {
    /// The handler of a mock route.
    pub fn new(config: MockRoute) -> (r: MockHandler)
        ensures
            r.config == config,
    {
        MockHandler { config }
    }

    /// The configured response: the status, and the body as JSON where one is
    /// configured.
    pub open spec fn response(&self) -> ResponseView {
        match self.config.body {
            Some(value) => ResponseView {
                status: self.config.status,
                ..json_response(json_text(value))
            },
            None => status_only(self.config.status),
        }
    }

    /// Answers every request with the configured response.
    pub fn handle(&self) -> (r: Response)
        ensures
            r@ == self.response(),
    {
        match &self.config.body {
            Some(value) => {
                let mut r = response::json(value);
                r.status = self.config.status;
                r
            },
            None => response::from_status(self.config.status),
        }
    }
}

} // verus!
