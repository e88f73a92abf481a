//! The parts of an upstream address.

use vstd::prelude::*;

verus! {

/// A path with the query that follows it.
#[derive(Debug)]
pub struct PathAndQuery {
    pub path: String,
    pub query: Option<String>,
}

/// An address taken apart: scheme and authority, and the base path and query
/// where the address has them.
#[derive(Debug)]
pub struct Uri {
    pub scheme: Option<String>,
    pub authority: Option<String>,
    pub path_and_query: Option<PathAndQuery>,
}

} // verus!
