//! Query parameters of the HTTP interface.
use vstd::prelude::*;

verus! {

/// How many records a listing may return.
#[derive(Clone, Copy, Debug)]
pub struct QueryLimit {
    pub limit: Option<u32>,
}

/// The ship that a WebSocket client subscribes to, if any.
#[derive(Clone, Debug)]
pub struct WsQuery {
    pub ship_id: Option<String>,
}

} // verus!
